//! The course of a sync, from its first exchange to its last: how a session
//! is had, and which of its parts runs when and with what.

use vstd::prelude::*;
use crate::desktop;
use crate::error::{AppError, ErrorView};
use crate::greader::{
    base_of, categories_request, client_login, get_request, greader_base, list_subscriptions,
    login_exchange, login_outcome, login_request, miniflux_categories, persist_session,
    session_outcome, session_plan, session_settings, session_with_token, sync_remote_folders,
    titles_of, token_exchange, token_request, Creds, CredsView, MinifluxCategory, Provider,
    Session, SessionPlan, SessionView, Sub,
};
use crate::models::SyncEntry;
use crate::net::{pairs, Reply, Request};
use crate::sync::{
    contents_request, ids_request, items_request, pull_contents, pull_items, server_urls, urls_of,
    FeedTarget, ImportAction, ImportEvent, ImportRun, Item, ItemAction, ItemEvent, ItemRun,
    PullPlan, PushAction, PushRun, StreamMap, SubscribeAction, SubscribeRun,
};
use crate::text;

verus! {

// ───────────────────────────── sessions ─────────────────────────────

/// Where the way to a session stands.
#[derive(Debug, PartialEq, Eq)]
pub enum SessionStage {
    /// The old password is exchanged for an auth token.
    Login { user: String, pass: String },
    /// The auth token is exchanged for a write token; `fresh` where it came
    /// of a login.
    Token { auth: String, fresh: bool },
    /// The connection is stored with its auth token.
    Persist(Session),
    /// The session, or why there is none.
    Done(Result<Session, AppError>),
}

/// What a [`SessionStage`] says.
pub enum SessionStageView {
    Login { user: Seq<char>, pass: Seq<char> },
    Token { auth: Seq<char>, fresh: bool },
    Persist(SessionView),
    Done(Result<SessionView, ErrorView>),
}

impl View for SessionStage {
    type V = SessionStageView;

    open spec fn view(&self) -> SessionStageView {
        match *self {
            SessionStage::Login { user, pass } => SessionStageView::Login {
                user: user@,
                pass: pass@,
            },
            SessionStage::Token { auth, fresh } => SessionStageView::Token { auth: auth@, fresh },
            SessionStage::Persist(session) => SessionStageView::Persist(session@),
            SessionStage::Done(Ok(session)) => SessionStageView::Done(Ok(session@)),
            SessionStage::Done(Err(e)) => SessionStageView::Done(Err(e@)),
        }
    }
}

/// What a [`SessionRun`] needs next.
#[derive(Debug, PartialEq, Eq)]
pub enum SessionAction {
    /// The outcome of this exchange.
    Send(Request),
    /// These settings stored.
    Store(Vec<(String, String)>),
    /// Nothing.
    Done,
}

/// What a [`SessionRun`] is told.
#[derive(Debug, PartialEq, Eq)]
pub enum SessionEvent {
    /// The outcome of an exchange.
    Reply(Reply),
    /// The settings were stored.
    Stored,
    /// The settings could not be stored.
    Failed(AppError),
}

/// The way from a stored connection to a session.
#[derive(Debug, PartialEq, Eq)]
pub struct SessionRun {
    pub url: String,
    pub user: String,
    pub provider: Provider,
    pub base: String,
    pub tell_apart: bool,
    pub stage: SessionStage,
}

/// How the way to a session starts: with the auth token where one is stored,
/// else with the old password.
pub open spec fn first_session_stage(creds: CredsView) -> SessionStageView {
    match creds.auth {
        Some(auth) => SessionStageView::Token { auth, fresh: false },
        None => SessionStageView::Login {
            user: creds.user,
            pass: text::or_else(creds.legacy_pass, Seq::empty()),
        },
    }
}

/// What a write token's exchange comes to. Where `tell_apart` is set, a
/// server that is away is told from one that refuses.
pub open spec fn token_outcome(
    tell_apart: bool,
    base: Seq<char>,
    auth: Seq<char>,
    reply: Reply,
) -> Result<SessionView, ErrorView> {
    if tell_apart {
        desktop::session_outcome(base, auth, reply)
    } else {
        session_outcome(base, auth, reply)
    }
}

/// What an event leads to. An event that answers another question changes
/// nothing.
pub open spec fn session_step_of(
    stage: SessionStageView,
    tell_apart: bool,
    base: Seq<char>,
    event: SessionEvent,
) -> SessionStageView {
    match (stage, event) {
        (SessionStageView::Login { .. }, SessionEvent::Reply(reply)) => match login_outcome(reply) {
            Ok(auth) => SessionStageView::Token { auth, fresh: true },
            Err(e) => SessionStageView::Done(Err(e)),
        },
        (SessionStageView::Token { auth, fresh }, SessionEvent::Reply(reply)) => match token_outcome(
            tell_apart,
            base,
            auth,
            reply,
        ) {
            Ok(session) => if fresh {
                SessionStageView::Persist(session)
            } else {
                SessionStageView::Done(Ok(session))
            },
            Err(e) => SessionStageView::Done(Err(e)),
        },
        (SessionStageView::Persist(session), SessionEvent::Stored) => SessionStageView::Done(
            Ok(session),
        ),
        (SessionStageView::Persist(_), SessionEvent::Failed(e)) => SessionStageView::Done(Err(e@)),
        _ => stage,
    }
}

impl SessionRun {
    /// The way to a session with the server of this connection.
    pub fn new(creds: &Creds, tell_apart: bool) -> (r: SessionRun)
        ensures
            r.url@ == creds@.url,
            r.user@ == creds@.user,
            r.provider == creds@.provider,
            r.base@ == base_of(creds@.url, creds@.provider),
            r.tell_apart == tell_apart,
            r.stage@ == first_session_stage(creds@),
    {
        let base = greader_base(creds.url.as_str(), creds.provider);
        let stage = match session_plan(creds) {
            SessionPlan::Token(auth) => SessionStage::Token { auth, fresh: false },
            SessionPlan::Login { user, pass } => SessionStage::Login { user, pass },
        };
        SessionRun {
            url: creds.url.clone(),
            user: creds.user.clone(),
            provider: creds.provider,
            base,
            tell_apart,
            stage,
        }
    }

    /// The way to a session for a sync; the error `freshrssNotConnected` where
    /// no connection is stored.
    pub fn start(creds: Option<&Creds>, tell_apart: bool) -> (r: Result<SessionRun, AppError>)
        ensures
            match creds {
                None => r matches Err(e) && e@ == ErrorView::Code("freshrssNotConnected"@),
                Some(c) => r matches Ok(run) && run.url@ == c@.url && run.user@ == c@.user
                    && run.provider == c@.provider && run.base@ == base_of(c@.url, c@.provider)
                    && run.tell_apart == tell_apart && run.stage@ == first_session_stage(c@),
            },
    {
        match creds {
            None => Err(AppError::code("freshrssNotConnected")),
            Some(c) => Ok(SessionRun::new(c, tell_apart)),
        }
    }

    /// What the way to the session needs next. A login's auth token is stored
    /// in place of the password.
    pub fn action(&self) -> (r: SessionAction)
        ensures
            match self.stage@ {
                SessionStageView::Login { user, pass } => r matches SessionAction::Send(request)
                    && request@ == login_exchange(self.base@, user, pass),
                SessionStageView::Token { auth, .. } => r matches SessionAction::Send(request)
                    && request@ == token_exchange(self.base@, auth),
                SessionStageView::Persist(session) => r matches SessionAction::Store(settings)
                    && pairs(settings@) == session_settings(
                    self.url@,
                    self.user@,
                    session.auth,
                    self.provider,
                ),
                SessionStageView::Done(_) => r is Done,
            },
    {
        match &self.stage {
            SessionStage::Login { user, pass } => SessionAction::Send(
                login_request(self.base.as_str(), user.as_str(), pass.as_str()),
            ),
            SessionStage::Token { auth, .. } => SessionAction::Send(
                token_request(self.base.as_str(), auth.as_str()),
            ),
            SessionStage::Persist(session) => SessionAction::Store(
                persist_session(
                    self.url.as_str(),
                    self.user.as_str(),
                    session.auth.as_str(),
                    self.provider,
                ),
            ),
            SessionStage::Done(_) => SessionAction::Done,
        }
    }

    /// Goes on behind the answer to the pending action.
    pub fn answer(self, event: SessionEvent) -> (r: SessionRun)
        ensures
            r.url == self.url,
            r.user == self.user,
            r.provider == self.provider,
            r.base == self.base,
            r.tell_apart == self.tell_apart,
            r.stage@ == session_step_of(self.stage@, self.tell_apart, self.base@, event),
    {
        let SessionRun { url, user, provider, base, tell_apart, stage } = self;
        let stage = match stage {
            SessionStage::Login { user: name, pass } => match event {
                SessionEvent::Reply(reply) => match client_login(reply) {
                    Ok(auth) => SessionStage::Token { auth, fresh: true },
                    Err(e) => SessionStage::Done(Err(e)),
                },
                _ => SessionStage::Login { user: name, pass },
            },
            SessionStage::Token { auth, fresh } => match event {
                SessionEvent::Reply(reply) => {
                    let outcome = if tell_apart {
                        desktop::session_with_token(base.as_str(), auth, reply)
                    } else {
                        session_with_token(base.as_str(), auth, reply)
                    };
                    match outcome {
                        Ok(session) => if fresh {
                            SessionStage::Persist(session)
                        } else {
                            SessionStage::Done(Ok(session))
                        },
                        Err(e) => SessionStage::Done(Err(e)),
                    }
                },
                _ => SessionStage::Token { auth, fresh },
            },
            SessionStage::Persist(session) => match event {
                SessionEvent::Stored => SessionStage::Done(Ok(session)),
                SessionEvent::Failed(e) => SessionStage::Done(Err(e)),
                _ => SessionStage::Persist(session),
            },
            SessionStage::Done(result) => SessionStage::Done(result),
        };
        SessionRun { url, user, provider, base, tell_apart, stage }
    }
}

/// A stored auth token is used as it is: no password is sent, and nothing is
/// stored, on the way to the session.
pub proof fn law_stored_tokens_need_no_password(
    auth: Seq<char>,
    tell_apart: bool,
    base: Seq<char>,
    event: SessionEvent,
)
    ensures
        ({
            let next = session_step_of(
                SessionStageView::Token { auth, fresh: false },
                tell_apart,
                base,
                event,
            );
            next is Done || next == (SessionStageView::Token { auth, fresh: false })
        }),
{
}

/// A login's token replaces the password before the session is used.
pub proof fn law_logins_are_migrated(
    stage: SessionStageView,
    tell_apart: bool,
    base: Seq<char>,
    event: SessionEvent,
)
    requires
        stage is Login || stage == (SessionStageView::Token { auth: stage->auth, fresh: true }),
    ensures
        session_step_of(stage, tell_apart, base, event) matches SessionStageView::Done(r)
            ==> r is Err,
{
}

// ───────────────────────────── a sync ─────────────────────────────

/// Where a sync stands.
#[derive(Debug, PartialEq, Eq)]
pub enum SyncStage {
    /// The queue of local changes is taken.
    TakeQueue,
    /// The queued changes are pushed.
    Push(PushRun),
    /// The server's folders are asked for.
    Categories,
    /// The server's folders are made here.
    Folders { names: Vec<String>, at: usize },
    /// The server's subscriptions are asked for.
    List,
    /// The subscriptions are taken over; the server has feeds with these URLs.
    Import { import: ImportRun, server: Vec<String> },
    /// The local feeds are asked for; the streams belong to those feeds.
    Targets { server: Vec<String>, streams: StreamMap },
    /// The server is subscribed to the feeds it lacks.
    Subscribe { run: SubscribeRun, streams: StreamMap },
    /// The server's articles are asked for, or their ids.
    Pull { streams: StreamMap },
    /// The articles with these ids are asked for.
    PullItems { ids: Vec<String>, streams: StreamMap },
    /// The server's articles are reconciled.
    Items(ItemRun),
    /// The number of new unread articles, or the error that ended the sync.
    Done(Result<usize, AppError>),
}

/// What a [`SyncRun`] needs next.
#[derive(Debug, PartialEq, Eq)]
pub enum SyncAction {
    /// The queue of local changes, which is empty then.
    TakeQueue,
    /// What the push of queued changes needs.
    Push(PushAction),
    /// The folders that this request gives.
    Categories(Request),
    /// The folder of this name, made where it is missing.
    Folder(String),
    /// The subscriptions that this request gives.
    Subscriptions(Request),
    /// What the import of subscriptions needs.
    Import(ImportAction),
    /// The local feeds and their folders.
    Targets,
    /// What subscribing the server needs.
    Subscribe(SubscribeAction),
    /// The ids that this request gives.
    Ids(Request),
    /// The articles that this request gives.
    Items(Request),
    /// What the reconciliation of articles needs.
    Item(ItemAction),
    /// Nothing.
    Done,
}

/// What a [`SyncRun`] is told.
#[derive(Debug, PartialEq, Eq)]
pub enum SyncEvent {
    /// The queue of local changes.
    Queue(Vec<SyncEntry>),
    /// How a push, or a subscription of the server, went.
    Sent(bool),
    /// The server's folders.
    Categories(Vec<MinifluxCategory>),
    /// The folder is there.
    Folder,
    /// The server's subscriptions.
    Subscriptions(Vec<Sub>),
    /// The store's answer to the import.
    Import(ImportEvent),
    /// The local feeds and their folders.
    Targets(Vec<FeedTarget>),
    /// The ids of the server's articles.
    Ids(Vec<String>),
    /// The server's articles.
    Items(Vec<Item>),
    /// The store's answer to the reconciliation.
    Item(ItemEvent),
    /// What was asked for failed.
    Failed(AppError),
}

/// The stage behind the push: the server's folders, where the connection has
/// access to them, else its subscriptions.
pub open spec fn behind_push(creds: CredsView) -> SyncStage {
    if categories_request(creds) is Some {
        SyncStage::Categories
    } else {
        SyncStage::List
    }
}

/// The stage of a push, or the one behind it.
pub open spec fn push_stage(run: PushRun, creds: CredsView) -> SyncStage {
    if run.is_done() {
        behind_push(creds)
    } else {
        SyncStage::Push(run)
    }
}

/// The stage of an import, or the one behind it.
pub open spec fn import_stage(run: ImportRun, server: Vec<String>) -> SyncStage {
    if run.is_done() {
        SyncStage::Targets { server, streams: run.streams }
    } else {
        SyncStage::Import { import: run, server }
    }
}

/// The stage of subscribing the server, or the one behind it.
pub open spec fn subscribe_stage(run: SubscribeRun, streams: StreamMap) -> SyncStage {
    if run.is_done() {
        SyncStage::Pull { streams }
    } else {
        SyncStage::Subscribe { run, streams }
    }
}

/// The stage of a reconciliation, or the end behind it.
pub open spec fn items_stage(run: ItemRun) -> SyncStage {
    if run.is_done() {
        SyncStage::Done(Ok(run.inserted))
    } else {
        SyncStage::Items(run)
    }
}

/// `after` is the stage that an event leads to from `before`. Each part gets
/// what the parts before it found out: the local feeds are held against the
/// server's URLs, and articles are matched by the streams of the
/// subscriptions. A failure ends the sync with its error, but for one of the
/// server's folders, which is passed over; and an event that answers another
/// question changes nothing.
pub open spec fn leads_to(
    before: SyncStage,
    creds: CredsView,
    event: SyncEvent,
    after: SyncStage,
) -> bool {
    match (before, event) {
        (SyncStage::TakeQueue, SyncEvent::Queue(queue)) => exists|run: PushRun| #[trigger]
            run.starts(queue@) && after == push_stage(run, creds),
        (SyncStage::Push(was), SyncEvent::Sent(ok)) => exists|run: PushRun| #[trigger]
            run.follows(was, ok) && after == push_stage(run, creds),
        (SyncStage::Categories, SyncEvent::Categories(list)) => if titles_of(list@).len() == 0 {
            after is List
        } else {
            after matches SyncStage::Folders { names, at } && text::views(names@) == titles_of(
                list@,
            ) && at == 0
        },
        (SyncStage::Folders { names, at }, SyncEvent::Folder) => if at + 1 < names@.len() {
            after == (SyncStage::Folders { names, at: (at + 1) as usize })
        } else {
            after is List
        },
        (SyncStage::Categories, SyncEvent::Failed(_)) => after is List,
        (SyncStage::Folders { .. }, SyncEvent::Failed(_)) => after is List,
        (SyncStage::List, SyncEvent::Subscriptions(subs)) => exists|
            run: ImportRun,
            server: Vec<String>,
        | #[trigger]
            run.starts(subs@) && #[trigger] text::views(server@) == urls_of(subs@) && after
                == import_stage(run, server),
        (SyncStage::Import { import: was, server }, SyncEvent::Import(event)) => exists|
            run: ImportRun,
        | #[trigger]
            run.follows(was, event) && after == import_stage(run, server),
        (SyncStage::Targets { server, streams }, SyncEvent::Targets(targets)) => exists|
            run: SubscribeRun,
        | #[trigger]
            run.starts(targets, text::views(server@)) && after == subscribe_stage(run, streams),
        (SyncStage::Subscribe { run: was, streams }, SyncEvent::Sent(ok)) => exists|
            run: SubscribeRun,
        | #[trigger]
            run.follows(was, ok) && after == subscribe_stage(run, streams),
        (SyncStage::Pull { streams }, SyncEvent::Ids(ids)) => if creds.provider
            == Provider::FreshRss {
            after == before
        } else if ids@.len() == 0 {
            after == SyncStage::Done(Ok(0))
        } else {
            after == (SyncStage::PullItems { ids, streams })
        },
        (SyncStage::Pull { streams }, SyncEvent::Items(items)) => if creds.provider
            == Provider::FreshRss {
            exists|run: ItemRun| #[trigger]
                run.starts(items@, streams@) && after == items_stage(run)
        } else {
            after == before
        },
        (SyncStage::PullItems { streams, .. }, SyncEvent::Items(items)) => exists|
            run: ItemRun,
        | #[trigger]
            run.starts(items@, streams@) && after == items_stage(run),
        (SyncStage::Items(was), SyncEvent::Item(event)) => exists|run: ItemRun| #[trigger]
            run.follows(was, event) && after == items_stage(run),
        (SyncStage::Push(_), _) => after == before,
        (SyncStage::Subscribe { .. }, _) => after == before,
        (SyncStage::Done(_), _) => after == before,
        (_, SyncEvent::Failed(e)) => after == SyncStage::Done(Err(e)),
        _ => after == before,
    }
}

/// One sync with a server.
#[derive(Debug, PartialEq, Eq)]
pub struct SyncRun {
    session: Session,
    creds: Creds,
    stage: SyncStage,
}

fn enter_push(run: PushRun, creds: &Creds) -> (r: SyncStage)
    ensures
        r == push_stage(run, creds@),
{
    if run.done() {
        match miniflux_categories(creds) {
            Some(_) => SyncStage::Categories,
            None => SyncStage::List,
        }
    } else {
        SyncStage::Push(run)
    }
}

fn enter_import(run: ImportRun, server: Vec<String>) -> (r: SyncStage)
    ensures
        r == import_stage(run, server),
{
    if run.at == run.plans.len() {
        SyncStage::Targets { server, streams: run.streams }
    } else {
        SyncStage::Import { import: run, server }
    }
}

fn enter_subscribe(run: SubscribeRun, streams: StreamMap) -> (r: SyncStage)
    ensures
        r == subscribe_stage(run, streams),
{
    if run.at == run.urls.len() {
        SyncStage::Pull { streams }
    } else {
        SyncStage::Subscribe { run, streams }
    }
}

fn enter_items(run: ItemRun) -> (r: SyncStage)
    ensures
        r == items_stage(run),
{
    if run.at == run.plans.len() {
        SyncStage::Done(Ok(run.inserted))
    } else {
        SyncStage::Items(run)
    }
}

impl SyncRun {
    /// The session that the sync uses.
    pub closed spec fn session(self) -> SessionView {
        self.session@
    }

    /// The connection that is synchronised.
    pub closed spec fn creds(self) -> CredsView {
        self.creds@
    }

    /// Where the sync stands.
    pub closed spec fn stage(self) -> SyncStage {
        self.stage
    }

    /// What holds of every sync: a part that is under way is not done, and
    /// the server's folders are asked for only where they can be.
    #[verifier::type_invariant]
    spec fn wf(self) -> bool {
        match self.stage {
            SyncStage::Push(run) => !run.is_done(),
            SyncStage::Categories => categories_request(self.creds@) is Some,
            SyncStage::Folders { names, at } => at < names@.len(),
            SyncStage::Import { import: run, .. } => run.wf() && !run.is_done(),
            SyncStage::Subscribe { run, .. } => run.wf() && !run.is_done(),
            SyncStage::PullItems { ids, .. } => ids@.len() > 0,
            SyncStage::Items(run) => run.wf() && !run.is_done(),
            _ => true,
        }
    }

    /// A sync over this connection.
    pub fn new(creds: Creds, session: Session) -> (r: SyncRun)
        ensures
            r.session() == session@,
            r.creds() == creds@,
            r.stage() is TakeQueue,
    {
        SyncRun { session, creds, stage: SyncStage::TakeQueue }
    }

    /// What the sync needs next.
    pub fn action(&self) -> (r: SyncAction)
        ensures
            match self.stage() {
                SyncStage::TakeQueue => r is TakeQueue,
                SyncStage::Push(run) => r matches SyncAction::Push(action) && run.wants(
                    self.session(),
                    action,
                ),
                SyncStage::Categories => r matches SyncAction::Categories(request) && Some(request@)
                    == categories_request(self.creds()),
                SyncStage::Folders { names, at } => r matches SyncAction::Folder(name) && name@
                    == names@[at as int]@,
                SyncStage::List => r matches SyncAction::Subscriptions(request) && request@
                    == get_request(self.session(), "subscription/list?output=json"@),
                SyncStage::Import { import: run, .. } => r matches SyncAction::Import(action) && run.wants(
                    action,
                ),
                SyncStage::Targets { .. } => r is Targets,
                SyncStage::Subscribe { run, .. } => r matches SyncAction::Subscribe(action)
                    && run.wants(self.session(), action),
                SyncStage::Pull { .. } => if self.creds().provider == Provider::FreshRss {
                    r matches SyncAction::Items(request) && request@ == contents_request(
                        self.session(),
                    )
                } else {
                    r matches SyncAction::Ids(request) && request@ == ids_request(self.session())
                },
                SyncStage::PullItems { ids, .. } => r matches SyncAction::Items(request) && request@
                    == items_request(self.session(), text::views(ids@)),
                SyncStage::Items(run) => r matches SyncAction::Item(action) && run.wants(action),
                SyncStage::Done(_) => r is Done,
            },
    {
        proof {
            use_type_invariant(self);
        }
        match &self.stage {
            SyncStage::TakeQueue => SyncAction::TakeQueue,
            SyncStage::Push(run) => SyncAction::Push(run.action(&self.session)),
            SyncStage::Categories => match miniflux_categories(&self.creds) {
                Some(request) => SyncAction::Categories(request),
                None => SyncAction::Done,
            },
            SyncStage::Folders { names, at } => SyncAction::Folder(names[*at].clone()),
            SyncStage::List => SyncAction::Subscriptions(list_subscriptions(&self.session)),
            SyncStage::Import { import: run, .. } => SyncAction::Import(run.action()),
            SyncStage::Targets { .. } => SyncAction::Targets,
            SyncStage::Subscribe { run, .. } => SyncAction::Subscribe(run.action(&self.session)),
            SyncStage::Pull { .. } => match pull_contents(&self.session, self.creds.provider) {
                PullPlan::Ids(request) => SyncAction::Ids(request),
                PullPlan::Contents(request) => SyncAction::Items(request),
            },
            SyncStage::PullItems { ids, .. } => match pull_items(&self.session, ids) {
                Some(request) => SyncAction::Items(request),
                None => SyncAction::Done,
            },
            SyncStage::Items(run) => SyncAction::Item(run.action()),
            SyncStage::Done(_) => SyncAction::Done,
        }
    }

    /// Goes on behind the answer to the pending action.
    pub fn answer(self, event: SyncEvent) -> (r: SyncRun)
        ensures
            r.session() == self.session(),
            r.creds() == self.creds(),
            leads_to(self.stage(), self.creds(), event, r.stage()),
    {
        proof {
            use_type_invariant(&self);
        }
        let SyncRun { session, creds, stage } = self;
        let stage = match stage {
            SyncStage::TakeQueue => match event {
                SyncEvent::Queue(queue) => enter_push(PushRun::new(queue), &creds),
                SyncEvent::Failed(e) => SyncStage::Done(Err(e)),
                _ => SyncStage::TakeQueue,
            },
            SyncStage::Push(run) => match event {
                SyncEvent::Sent(ok) => enter_push(run.answer(ok), &creds),
                _ => SyncStage::Push(run),
            },
            SyncStage::Categories => match event {
                SyncEvent::Categories(list) => {
                    match sync_remote_folders(&list) {
                        Some(names) => if names.len() > 0 {
                            SyncStage::Folders { names, at: 0 }
                        } else {
                            SyncStage::List
                        },
                        None => SyncStage::List,
                    }
                },
                SyncEvent::Failed(_) => SyncStage::List,
                _ => SyncStage::Categories,
            },
            SyncStage::Folders { names, at } => match event {
                SyncEvent::Folder => if at < names.len() - 1 {
                    SyncStage::Folders { names, at: at + 1 }
                } else {
                    SyncStage::List
                },
                SyncEvent::Failed(_) => SyncStage::List,
                _ => SyncStage::Folders { names, at },
            },
            SyncStage::List => match event {
                SyncEvent::Subscriptions(subs) => {
                    let server = server_urls(&subs);
                    enter_import(ImportRun::new(&subs), server)
                },
                SyncEvent::Failed(e) => SyncStage::Done(Err(e)),
                _ => SyncStage::List,
            },
            SyncStage::Import { import: mut run, server } => match event {
                SyncEvent::Import(answer) => {
                    run.answer(answer);
                    enter_import(run, server)
                },
                SyncEvent::Failed(e) => SyncStage::Done(Err(e)),
                _ => SyncStage::Import { import: run, server },
            },
            SyncStage::Targets { server, streams } => match event {
                SyncEvent::Targets(targets) => {
                    enter_subscribe(SubscribeRun::new(targets, &server), streams)
                },
                SyncEvent::Failed(e) => SyncStage::Done(Err(e)),
                _ => SyncStage::Targets { server, streams },
            },
            SyncStage::Subscribe { mut run, streams } => match event {
                SyncEvent::Sent(ok) => {
                    run.answer(ok);
                    enter_subscribe(run, streams)
                },
                _ => SyncStage::Subscribe { run, streams },
            },
            SyncStage::Pull { streams } => match (creds.provider, event) {
                (Provider::Miniflux, SyncEvent::Ids(ids)) => if ids.len() == 0 {
                    SyncStage::Done(Ok(0))
                } else {
                    SyncStage::PullItems { ids, streams }
                },
                (Provider::FreshRss, SyncEvent::Items(items)) => enter_items(
                    ItemRun::new(items, &streams),
                ),
                (_, SyncEvent::Failed(e)) => SyncStage::Done(Err(e)),
                _ => SyncStage::Pull { streams },
            },
            SyncStage::PullItems { ids, streams } => match event {
                SyncEvent::Items(items) => enter_items(ItemRun::new(items, &streams)),
                SyncEvent::Failed(e) => SyncStage::Done(Err(e)),
                _ => SyncStage::PullItems { ids, streams },
            },
            SyncStage::Items(mut run) => match event {
                SyncEvent::Item(answer) => {
                    run.answer(answer);
                    enter_items(run)
                },
                SyncEvent::Failed(e) => SyncStage::Done(Err(e)),
                _ => SyncStage::Items(run),
            },
            SyncStage::Done(result) => SyncStage::Done(result),
        };
        SyncRun { session, creds, stage }
    }

    /// The number of new unread articles, or the error that ended the sync,
    /// where it has ended.
    pub fn result(self) -> (r: Option<Result<usize, AppError>>)
        ensures
            match self.stage() {
                SyncStage::Done(result) => r == Some(result),
                _ => r is None,
            },
    {
        match self.stage {
            SyncStage::Done(result) => Some(result),
            _ => None,
        }
    }
}

// ───────────────────────────── laws ─────────────────────────────

/// The place of a stage in the course of a sync.
pub open spec fn place_of(stage: SyncStage) -> nat {
    match stage {
        SyncStage::TakeQueue => 0,
        SyncStage::Push(_) => 1,
        SyncStage::Categories => 2,
        SyncStage::Folders { .. } => 3,
        SyncStage::List => 4,
        SyncStage::Import { .. } => 5,
        SyncStage::Targets { .. } => 6,
        SyncStage::Subscribe { .. } => 7,
        SyncStage::Pull { .. } => 8,
        SyncStage::PullItems { .. } => 9,
        SyncStage::Items(_) => 10,
        SyncStage::Done(_) => 11,
    }
}

/// A sync never goes back: queued changes are pushed before subscriptions are
/// pulled, those before local feeds are pushed, and those before articles are
/// pulled.
pub proof fn law_parts_run_in_order(
    before: SyncStage,
    creds: CredsView,
    event: SyncEvent,
    after: SyncStage,
)
    requires
        leads_to(before, creds, event, after),
    ensures
        place_of(before) <= place_of(after),
{
}

/// A sync that ended stays as it ended.
pub proof fn law_ended_syncs_stay_ended(
    before: SyncStage,
    creds: CredsView,
    event: SyncEvent,
    after: SyncStage,
)
    requires
        leads_to(before, creds, event, after),
        before is Done,
    ensures
        after == before,
{
}

/// Only a failure ends a sync with an error, and with that error; and a
/// failure of the server's folders, of a push or of a subscription of the
/// server does not end it.
pub proof fn law_errors_come_of_failures(
    before: SyncStage,
    creds: CredsView,
    event: SyncEvent,
    after: SyncStage,
)
    requires
        leads_to(before, creds, event, after),
        !(before is Done),
    ensures
        after matches SyncStage::Done(Err(e)) ==> {
            &&& event == SyncEvent::Failed(e)
            &&& !(before is Categories) && !(before is Folders) && !(before is Push)
            &&& !(before is Subscribe)
        },
{
}

/// The streams by which articles are matched are those that the import of
/// subscriptions settled: no part in between changes them.
pub proof fn law_streams_are_handed_on(
    before: SyncStage,
    creds: CredsView,
    event: SyncEvent,
    after: SyncStage,
)
    requires
        leads_to(before, creds, event, after),
    ensures
        before matches SyncStage::Targets { streams, .. } ==> match after {
            SyncStage::Targets { streams: s, .. } => s == streams,
            SyncStage::Subscribe { streams: s, .. } => s == streams,
            SyncStage::Pull { streams: s } => s == streams,
            _ => after is Done,
        },
        before matches SyncStage::Subscribe { streams, .. } ==> match after {
            SyncStage::Subscribe { streams: s, .. } => s == streams,
            SyncStage::Pull { streams: s } => s == streams,
            _ => false,
        },
        before matches SyncStage::Pull { streams } ==> match after {
            SyncStage::Pull { streams: s } => s == streams,
            SyncStage::PullItems { streams: s, .. } => s == streams,
            _ => after is Items || after is Done,
        },
{
}

/// The way to a session starts with the stored token, and with the user name and
/// the old password only where there is none.
pub proof fn law_sessions_start(creds: CredsView)
    ensures
        creds.auth matches Some(auth) ==> first_session_stage(creds) == (SessionStageView::Token {
            auth,
            fresh: false,
        }),
        creds.auth is None ==> first_session_stage(creds) == (SessionStageView::Login {
            user: creds.user,
            pass: match creds.legacy_pass {
                Some(pass) => pass,
                None => Seq::empty(),
            },
        }),
{
}

/// The way to a session goes by its exchanges: a login's token is exchanged for
/// a write token and stored, a stored one is only exchanged, and each failure
/// ends the way with its own error.
pub proof fn law_sessions_go_on(
    user: Seq<char>,
    pass: Seq<char>,
    auth: Seq<char>,
    session: SessionView,
    base: Seq<char>,
    tell_apart: bool,
    reply: Reply,
    error: AppError,
)
    ensures
        login_outcome(reply) matches Ok(token) ==> session_step_of(
            SessionStageView::Login { user, pass },
            tell_apart,
            base,
            SessionEvent::Reply(reply),
        ) == (SessionStageView::Token { auth: token, fresh: true }),
        login_outcome(reply) matches Err(e) ==> session_step_of(
            SessionStageView::Login { user, pass },
            tell_apart,
            base,
            SessionEvent::Reply(reply),
        ) == SessionStageView::Done(Err(e)),
        ({
            let outcome = if tell_apart {
                desktop::session_outcome(base, auth, reply)
            } else {
                session_outcome(base, auth, reply)
            };
            &&& outcome matches Ok(s) ==> session_step_of(
                SessionStageView::Token { auth, fresh: true },
                tell_apart,
                base,
                SessionEvent::Reply(reply),
            ) == SessionStageView::Persist(s) && session_step_of(
                SessionStageView::Token { auth, fresh: false },
                tell_apart,
                base,
                SessionEvent::Reply(reply),
            ) == SessionStageView::Done(Ok(s))
            &&& outcome matches Err(e) ==> forall|fresh: bool| #[trigger]
                session_step_of(
                    SessionStageView::Token { auth, fresh },
                    tell_apart,
                    base,
                    SessionEvent::Reply(reply),
                ) == SessionStageView::Done(Err(e))
        }),
        session_step_of(
            SessionStageView::Persist(session),
            tell_apart,
            base,
            SessionEvent::Stored,
        ) == SessionStageView::Done(Ok(session)),
        session_step_of(
            SessionStageView::Persist(session),
            tell_apart,
            base,
            SessionEvent::Failed(error),
        ) == SessionStageView::Done(Err(error@)),
{
}

/// A sync goes through its parts: the queue is pushed until it is done, then the
/// server's folders are asked for where they can be, and then its subscriptions.
pub proof fn law_a_sync_starts_with_the_queue(
    before: SyncStage,
    creds: CredsView,
    event: SyncEvent,
    after: SyncStage,
)
    requires
        leads_to(before, creds, event, after),
    ensures
        before is TakeQueue ==> (event matches SyncEvent::Queue(queue) ==> exists|run: PushRun|
            #[trigger] run.starts(queue@) && (!run.is_done() ==> after == SyncStage::Push(run)) && (
            run.is_done() && categories_request(creds) is Some ==> after is Categories) && (
            run.is_done() && categories_request(creds) is None ==> after is List)),
        before matches SyncStage::Push(was) ==> (event matches SyncEvent::Sent(ok) ==> exists|
            run: PushRun,
        | #[trigger]
            run.follows(was, ok) && (!run.is_done() ==> after == SyncStage::Push(run)) && (
            run.is_done() && categories_request(creds) is Some ==> after is Categories) && (
            run.is_done() && categories_request(creds) is None ==> after is List)),
{
}

/// Every folder of the server is made here, in order; without any, and where
/// they cannot be had, the subscriptions follow.
pub proof fn law_every_server_folder_is_made(
    before: SyncStage,
    creds: CredsView,
    event: SyncEvent,
    after: SyncStage,
)
    requires
        leads_to(before, creds, event, after),
    ensures
        before is Categories ==> (event matches SyncEvent::Categories(list) ==> (titles_of(
            list@,
        ).len() == 0 ==> after is List) && (titles_of(list@).len() > 0 ==> (
        after matches SyncStage::Folders { names, at } && text::views(names@) == titles_of(list@)
            && at == 0))),
        before matches SyncStage::Folders { names, at } ==> event is Folder ==> (at + 1
            < names@.len() ==> after == (SyncStage::Folders { names, at: (at + 1) as usize })) && (
        at + 1 >= names@.len() ==> after is List),
        (before is Categories || before is Folders) && event is Failed ==> after is List,
{
}

/// The subscriptions are taken over until that is done, the server's URLs and
/// the streams of its feeds are kept, and the feeds that the server lacks are
/// pushed against those URLs.
pub proof fn law_subscriptions_come_before_feeds(
    before: SyncStage,
    creds: CredsView,
    event: SyncEvent,
    after: SyncStage,
)
    requires
        leads_to(before, creds, event, after),
    ensures
        before is List ==> (event matches SyncEvent::Subscriptions(subs) ==> exists|run: ImportRun|
            #[trigger] run.starts(subs@) && (if run.is_done() {
                after matches SyncStage::Targets { server, streams } && text::views(server@)
                    == urls_of(subs@) && streams == run.streams
            } else {
                after matches SyncStage::Import { import, server } && text::views(server@)
                    == urls_of(subs@) && import == run
            })),
        before matches SyncStage::Import { import: was, server } ==> (
        event matches SyncEvent::Import(e) ==> exists|run: ImportRun| #[trigger]
            run.follows(was, e) && after == (if run.is_done() {
                SyncStage::Targets { server, streams: run.streams }
            } else {
                SyncStage::Import { import: run, server }
            })),
        before matches SyncStage::Targets { server, streams } ==> (
        event matches SyncEvent::Targets(targets) ==> exists|run: SubscribeRun| #[trigger]
            run.starts(targets, text::views(server@)) && after == (if run.is_done() {
                SyncStage::Pull { streams }
            } else {
                SyncStage::Subscribe { run, streams }
            })),
        before matches SyncStage::Subscribe { run: was, streams } ==> (
        event matches SyncEvent::Sent(ok) ==> exists|run: SubscribeRun| #[trigger]
            run.follows(was, ok) && after == (if run.is_done() {
                SyncStage::Pull { streams }
            } else {
                SyncStage::Subscribe { run, streams }
            })),
{
}

/// Articles come last: from FreshRSS at once, from Miniflux by their ids, where
/// there are any; they are reconciled by the streams until that is done, and the
/// end gives how many new unread ones there were.
pub proof fn law_articles_come_last(
    before: SyncStage,
    creds: CredsView,
    event: SyncEvent,
    after: SyncStage,
)
    requires
        leads_to(before, creds, event, after),
    ensures
        before matches SyncStage::Pull { streams } ==> (event matches SyncEvent::Ids(ids) ==> (
        creds.provider == Provider::Miniflux && ids@.len() == 0 ==> after == SyncStage::Done(
            Ok::<usize, AppError>(0),
        )) && (creds.provider == Provider::Miniflux && ids@.len() > 0 ==> after
            == (SyncStage::PullItems { ids, streams })) && (creds.provider == Provider::FreshRss
            ==> after == before)),
        before matches SyncStage::Pull { streams } ==> (event matches SyncEvent::Items(items)
            ==> creds.provider == Provider::FreshRss ==> exists|run: ItemRun| #[trigger]
            run.starts(items@, streams@) && after == (if run.is_done() {
                SyncStage::Done(Ok(run.inserted))
            } else {
                SyncStage::Items(run)
            })),
        before matches SyncStage::PullItems { ids, streams } ==> (
        event matches SyncEvent::Items(items) ==> exists|run: ItemRun| #[trigger]
            run.starts(items@, streams@) && after == (if run.is_done() {
                SyncStage::Done(Ok(run.inserted))
            } else {
                SyncStage::Items(run)
            })),
        before matches SyncStage::Items(was) ==> (event matches SyncEvent::Item(e) ==> exists|
            run: ItemRun,
        | #[trigger]
            run.follows(was, e) && after == (if run.is_done() {
                SyncStage::Done(Ok(run.inserted))
            } else {
                SyncStage::Items(run)
            })),
        event matches SyncEvent::Failed(e) ==> (before is TakeQueue || before is List || before
            is Import || before is Targets || before is Pull || before is PullItems || before
            is Items) ==> after == SyncStage::Done(Err::<usize, AppError>(e)),
{
}

} // verus!
