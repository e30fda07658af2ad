//! Synchronisation with a Google Reader compatible server: which exchanges
//! and which changes of the local store one sync makes, in which order, and
//! what each of their outcomes leads to. Each part of a sync is a run that
//! says what it needs next and is told how that went.

use vstd::prelude::*;
use chrono::TimeZone;
use crate::greader::{
    filing_form, folder_among, get_request, has_state_tag, post_request, push_state, says_tag,
    set_subscription_folder, state_request, stream_of, subscribe_request, subscribe_url,
    subscription_folder, subscription_stream, Creds, Provider, Session, SessionView, Sub, READ_TAG,
    STARRED_TAG,
};
use crate::markup::fragment_edges;
use crate::models::{NewArticle, NewArticleView, SyncEntry};
use crate::net::{pairs, put_pair, Request, RequestView};
use crate::sanitize::{collapsed_text, html_to_text};
use crate::text;

verus! {

/// Whether a sync runs at all: where a connection is stored.
pub fn run_if_connected(creds: &Option<Creds>) -> (r: bool)
    ensures
        r == (*creds is Some),
{
    creds.is_some()
}

// ───────────────────────── pushing queued changes ─────────────────────────

/// How many of the pushes were taken.
pub open spec fn taken(outcomes: Seq<bool>) -> nat
    decreases outcomes.len(),
{
    if outcomes.len() == 0 {
        0
    } else {
        taken(outcomes.drop_last()) + (if outcomes.last() {
            1nat
        } else {
            0nat
        })
    }
}

/// Which of the pushes were refused, in order.
pub open spec fn refused(outcomes: Seq<bool>) -> Seq<int>
    decreases outcomes.len(),
{
    if outcomes.len() == 0 {
        Seq::empty()
    } else if outcomes.last() {
        refused(outcomes.drop_last())
    } else {
        refused(outcomes.drop_last()).push(outcomes.len() - 1)
    }
}

/// The push of a queue of local changes: each is sent once, in order, and
/// those that fail are queued again behind the last.
#[derive(Debug, PartialEq, Eq)]
pub struct PushRun {
    queue: Vec<SyncEntry>,
    outcomes: Vec<bool>,
    failed: Vec<usize>,
    pushed: usize,
    requeued: usize,
}

/// What a [`PushRun`] needs next.
#[derive(Debug, PartialEq, Eq)]
pub enum PushAction {
    /// Send this change; the answer says whether the server took it.
    Send(Request),
    /// Queue this change again; whether that works makes no difference.
    Requeue(SyncEntry),
    /// Nothing: so many changes were pushed.
    Done(usize),
}

impl PushRun {
    /// The changes to push.
    pub closed spec fn queue(self) -> Seq<SyncEntry> {
        self.queue@
    }

    /// How the pushes so far went.
    pub closed spec fn outcomes(self) -> Seq<bool> {
        self.outcomes@
    }

    /// How many failed changes were queued again so far.
    pub closed spec fn requeued(self) -> nat {
        self.requeued as nat
    }

    /// The run is the beginning of the push of this queue.
    pub open spec fn starts(self, queue: Seq<SyncEntry>) -> bool {
        self.queue() == queue && self.outcomes() == Seq::<bool>::empty() && self.requeued() == 0
    }

    /// Nothing is left to send or to queue again.
    pub open spec fn is_done(self) -> bool {
        self.outcomes().len() >= self.queue().len() && self.requeued() >= refused(
            self.outcomes(),
        ).len()
    }

    /// The run is `before` behind its pending action, which went as `ok` says.
    pub open spec fn follows(self, before: PushRun, ok: bool) -> bool {
        &&& self.queue() == before.queue()
        &&& if before.outcomes().len() < before.queue().len() {
            self.outcomes() == before.outcomes().push(ok) && self.requeued() == before.requeued()
        } else {
            self.outcomes() == before.outcomes() && self.requeued() == (if before.requeued()
                < refused(before.outcomes()).len() {
                before.requeued() + 1
            } else {
                before.requeued()
            })
        }
    }

    /// What holds of every run.
    #[verifier::type_invariant]
    spec fn wf(self) -> bool {
        &&& self.outcomes@.len() <= self.queue@.len()
        &&& self.failed@.map_values(|i: usize| i as int) == refused(self.outcomes@)
        &&& self.pushed == taken(self.outcomes@)
        &&& self.pushed <= self.outcomes@.len()
        &&& self.requeued <= self.failed@.len()
        &&& self.requeued > 0 ==> self.outcomes@.len() == self.queue@.len()
    }

    /// The push of this queue.
    pub fn new(queue: Vec<SyncEntry>) -> (r: PushRun)
        ensures
            r.starts(queue@),
    {
        let outcomes: Vec<bool> = Vec::new();
        let failed: Vec<usize> = Vec::new();
        assert(failed@.map_values(|i: usize| i as int) =~= refused(outcomes@));
        PushRun { queue, outcomes, failed, pushed: 0, requeued: 0 }
    }

    /// This is what the run needs next.
    pub open spec fn wants(self, session: SessionView, r: PushAction) -> bool {
        let sent = self.outcomes().len() as int;
        let again = refused(self.outcomes());
        if sent < self.queue().len() {
            r matches PushAction::Send(request) && request@ == state_request(
                session,
                self.queue()[sent].remote_id@,
                self.queue()[sent].field@,
                self.queue()[sent].value,
            )
        } else if self.requeued() < again.len() {
            r matches PushAction::Requeue(entry) && entry == self.queue()[again[
                self.requeued() as int
            ]]
        } else {
            r matches PushAction::Done(pushed) && pushed == taken(self.outcomes())
        }
    }

    /// What the run needs next.
    pub fn action(&self, session: &Session) -> (r: PushAction)
        ensures
            self.wants(session@, r),
    {
        proof {
            use_type_invariant(self);
            lemma_refused(self.outcomes@);
        }
        if self.outcomes.len() < self.queue.len() {
            let entry = &self.queue[self.outcomes.len()];
            PushAction::Send(
                push_state(session, entry.remote_id.as_str(), entry.field.as_str(), entry.value),
            )
        } else if self.requeued < self.failed.len() {
            assert(refused(self.outcomes@)[self.requeued as int] == self.failed@[self.requeued as int]);
            PushAction::Requeue(self.queue[self.failed[self.requeued]].copy())
        } else {
            assert(refused(self.outcomes@).len() == self.failed@.len());
            PushAction::Done(self.pushed)
        }
    }

    /// Whether nothing is left to send or to queue again.
    pub fn done(&self) -> (r: bool)
        ensures
            r == self.is_done(),
    {
        proof {
            use_type_invariant(self);
            assert(refused(self.outcomes@).len() == self.failed@.len());
        }
        self.outcomes.len() == self.queue.len() && self.requeued == self.failed.len()
    }

    /// Goes on behind the pending action, which went as `ok` says.
    pub fn answer(self, ok: bool) -> (r: PushRun)
        ensures
            r.follows(self, ok),
    {
        proof {
            use_type_invariant(&self);
            assert(refused(self.outcomes@).len() == self.failed@.len());
        }
        let PushRun { queue, mut outcomes, mut failed, mut pushed, mut requeued } = self;
        let ghost before = outcomes@;
        let ghost before_failed = failed@;
        if outcomes.len() < queue.len() {
            let place: usize = outcomes.len();
            outcomes.push(ok);
            assert(outcomes@.drop_last() =~= before);
            if ok {
                pushed = pushed + 1;
            } else {
                failed.push(place);
                assert(failed@.map_values(|i: usize| i as int) =~= before_failed.map_values(
                    |i: usize| i as int,
                ).push(place as int));
            }
        } else if requeued < failed.len() {
            requeued = requeued + 1;
        }
        PushRun { queue, outcomes, failed, pushed, requeued }
    }
}

proof fn lemma_refused(outcomes: Seq<bool>)
    ensures
        forall|k: int|
            0 <= k < refused(outcomes).len() ==> 0 <= #[trigger] refused(outcomes)[k]
                < outcomes.len() && !outcomes[refused(outcomes)[k]],
        taken(outcomes) + refused(outcomes).len() == outcomes.len(),
    decreases outcomes.len(),
{
    if outcomes.len() > 0 {
        lemma_refused(outcomes.drop_last());
        let before = refused(outcomes.drop_last());
        assert forall|k: int| 0 <= k < refused(outcomes).len() implies 0 <= #[trigger] refused(
            outcomes,
        )[k] < outcomes.len() && !outcomes[refused(outcomes)[k]] by {
            if k < before.len() {
                assert(refused(outcomes)[k] == before[k]);
            }
        }
    }
}

/// No queued change is lost: each one is either taken by the server or among
/// those queued again, never both, and those are in order.
pub proof fn law_every_change_is_pushed_or_requeued(outcomes: Seq<bool>, i: int)
    requires
        0 <= i < outcomes.len(),
    ensures
        refused(outcomes).contains(i) == !outcomes[i],
        taken(outcomes) + refused(outcomes).len() == outcomes.len(),
        forall|j: int, k: int|
            0 <= j < k < refused(outcomes).len() ==> #[trigger] refused(outcomes)[j]
                < #[trigger] refused(outcomes)[k],
    decreases outcomes.len(),
{
    lemma_refused(outcomes);
    let head = outcomes.drop_last();
    let before = refused(head);
    lemma_refused(head);
    if head.len() > 0 {
        let at = if i < head.len() {
            i
        } else {
            0
        };
        law_every_change_is_pushed_or_requeued(head, at);
    }
    if i == head.len() {
        if !outcomes[i] {
            assert(refused(outcomes)[refused(outcomes).len() - 1] == i);
        } else {
            assert(!refused(outcomes).contains(i));
        }
    } else {
        if !outcomes[i] {
            assert(before.contains(i));
            let k = choose|k: int| 0 <= k < before.len() && before[k] == i;
            assert(refused(outcomes)[k] == i);
        } else {
            assert(!refused(outcomes).contains(i));
        }
    }
    assert forall|j: int, k: int| 0 <= j < k < refused(outcomes).len() implies #[trigger] refused(
        outcomes,
    )[j] < #[trigger] refused(outcomes)[k] by {
        assert(refused(outcomes)[j] == before[j]);
        if k < before.len() {
            assert(refused(outcomes)[k] == before[k]);
        }
    }
}

// ─────────────────────── taking over subscriptions ───────────────────────

/// Which local feed each remote stream belongs to.
#[derive(Debug, PartialEq, Eq)]
pub struct StreamMap {
    entries: Vec<(String, i64)>,
}

spec fn map_of(entries: Seq<(String, i64)>) -> Map<Seq<char>, i64>
    decreases entries.len(),
{
    if entries.len() == 0 {
        Map::empty()
    } else {
        map_of(entries.drop_last()).insert(entries.last().0@, entries.last().1)
    }
}

impl View for StreamMap {
    type V = Map<Seq<char>, i64>;

    closed spec fn view(&self) -> Map<Seq<char>, i64> {
        map_of(self.entries@)
    }
}

/// The feed of a stream.
pub open spec fn feed_of(streams: Map<Seq<char>, i64>, stream: Seq<char>) -> Option<i64> {
    if streams.contains_key(stream) {
        Some(streams[stream])
    } else {
        None
    }
}

impl StreamMap {
    /// No stream.
    pub fn new() -> (r: StreamMap)
        ensures
            r@ == Map::<Seq<char>, i64>::empty(),
    {
        StreamMap { entries: Vec::new() }
    }

    /// Gives a stream its feed, in place of one that it may have had.
    pub fn insert(&mut self, stream: String, feed_id: i64)
        ensures
            final(self)@ == old(self)@.insert(stream@, feed_id),
    {
        self.entries.push((stream, feed_id));
        assert(self.entries@.drop_last() =~= old(self).entries@);
    }

    /// The feed of a stream.
    pub fn get(&self, stream: &str) -> (r: Option<i64>)
        ensures
            r == feed_of(self@, stream@),
    {
        let mut i: usize = self.entries.len();
        assert(self.entries@.take(i as int) =~= self.entries@);
        while i > 0
            invariant
                i <= self.entries@.len(),
                feed_of(self@, stream@) == feed_of(map_of(self.entries@.take(i as int)), stream@),
            decreases i,
        {
            i = i - 1;
            assert(self.entries@.take(i + 1).drop_last() =~= self.entries@.take(i as int));
            if text::same(self.entries[i].0.as_str(), stream) {
                return Some(self.entries[i].1);
            }
        }
        None
    }
}

/// A feed that a server-side subscription calls for.
#[derive(Debug, PartialEq, Eq)]
pub struct FeedPlan {
    pub url: String,
    pub title: String,
    pub stream: String,
}

/// What a server-side subscription calls for locally: a folder, a feed in it,
/// or either alone.
#[derive(Debug, PartialEq, Eq)]
pub struct SubPlan {
    pub folder: Option<String>,
    pub feed: Option<FeedPlan>,
}

/// What a [`FeedPlan`] says.
pub struct FeedPlanView {
    pub url: Seq<char>,
    pub title: Seq<char>,
    pub stream: Seq<char>,
}

/// What a [`SubPlan`] says.
pub struct SubPlanView {
    pub folder: Option<Seq<char>>,
    pub feed: Option<FeedPlanView>,
}

impl View for SubPlan {
    type V = SubPlanView;

    open spec fn view(&self) -> SubPlanView {
        SubPlanView {
            folder: text::view_of(self.folder),
            feed: match self.feed {
                Some(f) => Some(
                    FeedPlanView { url: f.url@, title: f.title@, stream: f.stream@ },
                ),
                None => None,
            },
        }
    }
}

/// What a subscription calls for: the folder it is filed under, and a feed
/// where it has a URL, under its title or else its URL.
pub open spec fn plan_of(sub: Sub) -> SubPlanView {
    SubPlanView {
        folder: folder_among(sub.categories@),
        feed: match text::nonempty_of(text::trimmed_of(text::view_of(sub.url))) {
            Some(url) => Some(
                FeedPlanView {
                    url,
                    title: text::or_else(text::view_of(sub.title), url),
                    stream: stream_of(sub, url),
                },
            ),
            None => None,
        },
    }
}

/// What a subscription calls for.
pub fn plan_subscription(sub: &Sub) -> (r: SubPlan)
    ensures
        r@ == plan_of(*sub),
{
    let folder = subscription_folder(&sub.categories);
    let feed = match text::named(text::slice_of(&sub.url)) {
        Some(url) => {
            let title = match &sub.title {
                Some(title) => title.clone(),
                None => url.clone(),
            };
            let stream = subscription_stream(sub, url.as_str());
            Some(FeedPlan { url, title, stream })
        },
        None => None,
    };
    SubPlan { folder, feed }
}

/// What the subscriptions call for, those left out that call for nothing.
pub open spec fn plans_of(subs: Seq<Sub>) -> Seq<SubPlanView>
    decreases subs.len(),
{
    if subs.len() == 0 {
        Seq::empty()
    } else {
        let before = plans_of(subs.drop_last());
        let plan = plan_of(subs.last());
        if plan.folder is None && plan.feed is None {
            before
        } else {
            before.push(plan)
        }
    }
}

/// What a list of plans says.
pub open spec fn plan_views(v: Seq<SubPlan>) -> Seq<SubPlanView> {
    v.map_values(|p: SubPlan| p@)
}

/// What the subscriptions call for.
pub fn plan_subscriptions(subs: &Vec<Sub>) -> (r: Vec<SubPlan>)
    ensures
        plan_views(r@) == plans_of(subs@),
        forall|i: int| 0 <= i < r@.len() ==> (#[trigger] r@[i]).folder is Some || r@[i].feed is Some,
{
    let mut out: Vec<SubPlan> = Vec::new();
    assert(subs@.take(0) =~= Seq::<Sub>::empty());
    assert(plan_views(out@) =~= Seq::<SubPlanView>::empty());
    for i in 0..subs.len()
        invariant
            plan_views(out@) == plans_of(subs@.take(i as int)),
            forall|j: int|
                0 <= j < out@.len() ==> (#[trigger] out@[j]).folder is Some || out@[j].feed is Some,
    {
        assert(subs@.take(i + 1).drop_last() =~= subs@.take(i as int));
        let ghost before = out@;
        let plan = plan_subscription(&subs[i]);
        let ghost said = plan@;
        if plan.folder.is_some() || plan.feed.is_some() {
            out.push(plan);
            assert(plan_views(out@) =~= plan_views(before).push(said));
        }
    }
    assert(subs@.take(subs@.len() as int) =~= subs@);
    out
}

/// The URLs that the server has subscriptions to.
pub open spec fn urls_of(subs: Seq<Sub>) -> Seq<Seq<char>>
    decreases subs.len(),
{
    if subs.len() == 0 {
        Seq::empty()
    } else {
        let before = urls_of(subs.drop_last());
        match text::nonempty_of(text::view_of(subs.last().url)) {
            Some(url) => before.push(url),
            None => before,
        }
    }
}

/// The URLs that the server has subscriptions to.
pub fn server_urls(subs: &Vec<Sub>) -> (r: Vec<String>)
    ensures
        text::views(r@) == urls_of(subs@),
{
    let mut out: Vec<String> = Vec::new();
    assert(subs@.take(0) =~= Seq::<Sub>::empty());
    assert(text::views(out@) =~= Seq::<Seq<char>>::empty());
    for i in 0..subs.len()
        invariant
            text::views(out@) == urls_of(subs@.take(i as int)),
    {
        assert(subs@.take(i + 1).drop_last() =~= subs@.take(i as int));
        let ghost before = out@;
        match &subs[i].url {
            Some(url) => {
                if !url.as_str().is_empty() {
                    out.push(url.clone());
                    assert(text::views(out@) =~= text::views(before).push(url@));
                }
            },
            None => {},
        }
    }
    assert(subs@.take(subs@.len() as int) =~= subs@);
    out
}

/// Where the import of one subscription stands.
#[derive(Clone, Copy, Debug, PartialEq, Eq, Structural)]
pub enum ImportStage {
    /// Its folder's id is wanted.
    Folder,
    /// The feed is looked for; it belongs in `folder`.
    Find { folder: Option<i64> },
    /// The feed is made.
    Insert { folder: Option<i64> },
    /// The feed is there; its folder is wanted.
    Current { id: i64, folder: Option<i64> },
    /// The feed is moved.
    Move { id: i64, folder: Option<i64> },
}

/// What the store says to the import of a subscription.
#[derive(Clone, Copy, Debug, PartialEq, Eq, Structural)]
pub enum ImportEvent {
    /// The id of the folder of that name, which is made where it is missing.
    FolderId(i64),
    /// The feed with that URL.
    Found(Option<i64>),
    /// The feed that was made.
    Inserted(i64),
    /// The folder the feed is in.
    InFolder(Option<i64>),
    /// The feed was moved.
    Moved,
}

/// What an event leads to.
#[derive(Clone, Copy, Debug, PartialEq, Eq, Structural)]
pub enum ImportStep {
    /// It answers another question: nothing changes.
    Stay,
    /// This comes next.
    To(ImportStage),
    /// The subscription's feed is this one; the next subscription follows.
    Settle(i64),
    /// There is no feed to settle; the next subscription follows.
    Skip,
}

/// What an event leads to: a folder's id lets the feed be looked for, where
/// the subscription has one; a feed that is missing is made in its folder,
/// one that is there is moved where its folder is another.
pub open spec fn import_step_of(
    stage: ImportStage,
    has_feed: bool,
    event: ImportEvent,
) -> ImportStep {
    match (stage, event) {
        (ImportStage::Folder, ImportEvent::FolderId(id)) => if has_feed {
            ImportStep::To(ImportStage::Find { folder: Some(id) })
        } else {
            ImportStep::Skip
        },
        (ImportStage::Find { folder }, ImportEvent::Found(None)) => ImportStep::To(
            ImportStage::Insert { folder },
        ),
        (ImportStage::Find { folder }, ImportEvent::Found(Some(id))) => ImportStep::To(
            ImportStage::Current { id, folder },
        ),
        (ImportStage::Insert { .. }, ImportEvent::Inserted(id)) => ImportStep::Settle(id),
        (ImportStage::Current { id, folder }, ImportEvent::InFolder(now)) => if now == folder {
            ImportStep::Settle(id)
        } else {
            ImportStep::To(ImportStage::Move { id, folder })
        },
        (ImportStage::Move { id, .. }, ImportEvent::Moved) => ImportStep::Settle(id),
        _ => ImportStep::Stay,
    }
}

/// What an event leads to.
pub fn import_step(stage: ImportStage, has_feed: bool, event: ImportEvent) -> (r: ImportStep)
    ensures
        r == import_step_of(stage, has_feed, event),
{
    match (stage, event) {
        (ImportStage::Folder, ImportEvent::FolderId(id)) => if has_feed {
            ImportStep::To(ImportStage::Find { folder: Some(id) })
        } else {
            ImportStep::Skip
        },
        (ImportStage::Find { folder }, ImportEvent::Found(found)) => match found {
            None => ImportStep::To(ImportStage::Insert { folder }),
            Some(id) => ImportStep::To(ImportStage::Current { id, folder }),
        },
        (ImportStage::Insert { .. }, ImportEvent::Inserted(id)) => ImportStep::Settle(id),
        (ImportStage::Current { id, folder }, ImportEvent::InFolder(now)) => if same_folder(
            now,
            folder,
        ) {
            ImportStep::Settle(id)
        } else {
            ImportStep::To(ImportStage::Move { id, folder })
        },
        (ImportStage::Move { id, .. }, ImportEvent::Moved) => ImportStep::Settle(id),
        _ => ImportStep::Stay,
    }
}

fn same_folder(a: Option<i64>, b: Option<i64>) -> (r: bool)
    ensures
        r == (a == b),
{
    match (a, b) {
        (Some(a), Some(b)) => a == b,
        (None, None) => true,
        _ => false,
    }
}

/// The import of the server's subscriptions.
#[derive(Debug, PartialEq, Eq)]
pub struct ImportRun {
    pub plans: Vec<SubPlan>,
    pub at: usize,
    pub stage: ImportStage,
    pub streams: StreamMap,
}

/// What an [`ImportRun`] needs next. A failure of any of these ends the sync.
#[derive(Debug, PartialEq, Eq)]
pub enum ImportAction {
    /// The id of the folder of this name, made where it is missing.
    FolderId(String),
    /// The feed with this URL.
    FindFeed(String),
    /// A new feed.
    InsertFeed { url: String, title: String, folder: Option<i64> },
    /// The folder that this feed is in.
    FeedFolder(i64),
    /// This feed moved into this folder, or out of any.
    MoveFeed { id: i64, folder: Option<i64> },
    /// Nothing.
    Done,
}

/// Where the import of the subscription with this plan starts.
pub open spec fn first_stage(plans: Seq<SubPlan>, at: int) -> ImportStage {
    if 0 <= at < plans.len() && plans[at].folder is None {
        ImportStage::Find { folder: None }
    } else {
        ImportStage::Folder
    }
}

fn first(plans: &Vec<SubPlan>, at: usize) -> (r: ImportStage)
    ensures
        r == first_stage(plans@, at as int),
{
    if at < plans.len() && plans[at].folder.is_none() {
        ImportStage::Find { folder: None }
    } else {
        ImportStage::Folder
    }
}

/// The streams behind a settled feed: its own stream, and the one its URL
/// makes, belong to it.
pub open spec fn settled(streams: Map<Seq<char>, i64>, feed: FeedPlanView, id: i64) -> Map<
    Seq<char>,
    i64,
> {
    streams.insert(feed.stream, id).insert("feed/"@ + feed.url, id)
}

impl ImportRun {
    /// What holds of every import: each plan calls for something, and the
    /// stage asks for something that its plan has.
    pub open spec fn wf(self) -> bool {
        &&& self.at <= self.plans@.len()
        &&& forall|i: int|
            0 <= i < self.plans@.len() ==> (#[trigger] self.plans@[i]).folder is Some
                || self.plans@[i].feed is Some
        &&& self.at < self.plans@.len() ==> match self.stage {
            ImportStage::Folder => self.plans@[self.at as int].folder is Some,
            _ => self.plans@[self.at as int].feed is Some,
        }
    }

    /// The run is the beginning of the import of these subscriptions.
    pub open spec fn starts(self, subs: Seq<Sub>) -> bool {
        &&& plan_views(self.plans@) == plans_of(subs)
        &&& self.at == 0
        &&& self.stage == first_stage(self.plans@, 0)
        &&& self.streams@ == Map::<Seq<char>, i64>::empty()
    }

    /// No subscription is left.
    pub open spec fn is_done(self) -> bool {
        self.at == self.plans@.len()
    }

    /// The run is `before` behind the store's answer to its pending action.
    pub open spec fn follows(self, before: ImportRun, event: ImportEvent) -> bool {
        let at = before.at as int;
        let plans = before.plans@;
        let step = if at < plans.len() {
            import_step_of(before.stage, plans[at].feed is Some, event)
        } else {
            ImportStep::Stay
        };
        &&& self.plans == before.plans
        &&& match step {
            ImportStep::Stay => self == before,
            ImportStep::To(stage) => self.at == at && self.stage == stage && self.streams
                == before.streams,
            ImportStep::Skip => self.at == at + 1 && self.stage == first_stage(plans, at + 1)
                && self.streams == before.streams,
            ImportStep::Settle(id) => self.at == at + 1 && self.stage == first_stage(plans, at + 1)
                && self.streams@ == settled(before.streams@, plans[at]@.feed->Some_0, id),
        }
    }

    /// The import of these subscriptions.
    pub fn new(subs: &Vec<Sub>) -> (r: ImportRun)
        ensures
            r.wf(),
            r.starts(subs@),
    {
        let plans = plan_subscriptions(subs);
        let stage = first(&plans, 0);
        ImportRun { plans, at: 0, stage, streams: StreamMap::new() }
    }

    /// This is what the import needs next.
    pub open spec fn wants(self, r: ImportAction) -> bool {
        if self.at == self.plans@.len() {
            r is Done
        } else {
            let plan = self.plans@[self.at as int]@;
            match self.stage {
                ImportStage::Folder => r matches ImportAction::FolderId(name) && Some(name@)
                    == plan.folder,
                ImportStage::Find { .. } => r matches ImportAction::FindFeed(url) && url@
                    == plan.feed->Some_0.url,
                ImportStage::Insert { folder } => r matches ImportAction::InsertFeed {
                    url,
                    title,
                    folder: into,
                } && url@ == plan.feed->Some_0.url && title@ == plan.feed->Some_0.title && into
                    == folder,
                ImportStage::Current { id, .. } => r == ImportAction::FeedFolder(id),
                ImportStage::Move { id, folder } => r == (ImportAction::MoveFeed {
                    id,
                    folder,
                }),
            }
        }
    }

    /// What the import needs next.
    pub fn action(&self) -> (r: ImportAction)
        requires
            self.wf(),
        ensures
            self.wants(r),
    {
        if self.at == self.plans.len() {
            return ImportAction::Done;
        }
        let plan = &self.plans[self.at];
        match self.stage {
            ImportStage::Folder => match &plan.folder {
                Some(name) => ImportAction::FolderId(name.clone()),
                None => ImportAction::Done,
            },
            ImportStage::Find { .. } => match &plan.feed {
                Some(feed) => ImportAction::FindFeed(feed.url.clone()),
                None => ImportAction::Done,
            },
            ImportStage::Insert { folder } => match &plan.feed {
                Some(feed) => ImportAction::InsertFeed {
                    url: feed.url.clone(),
                    title: feed.title.clone(),
                    folder,
                },
                None => ImportAction::Done,
            },
            ImportStage::Current { id, .. } => ImportAction::FeedFolder(id),
            ImportStage::Move { id, folder } => ImportAction::MoveFeed { id, folder },
        }
    }

    /// Goes on behind the store's answer to the pending action.
    pub fn answer(&mut self, event: ImportEvent)
        requires
            old(self).wf(),
        ensures
            final(self).wf(),
            final(self).follows(*old(self), event),
    {
        if self.at == self.plans.len() {
            return;
        }
        let has_feed = self.plans[self.at].feed.is_some();
        match import_step(self.stage, has_feed, event) {
            ImportStep::Stay => {},
            ImportStep::To(stage) => {
                self.stage = stage;
            },
            ImportStep::Skip => {
                self.at = self.at + 1;
                self.stage = first(&self.plans, self.at);
            },
            ImportStep::Settle(id) => {
                let keys = match &self.plans[self.at].feed {
                    Some(feed) => Some(
                        (feed.stream.clone(), text::cat("feed/", feed.url.as_str())),
                    ),
                    None => None,
                };
                if let Some(keys) = keys {
                    self.streams.insert(keys.0, id);
                    self.streams.insert(keys.1, id);
                }
                self.at = self.at + 1;
                self.stage = first(&self.plans, self.at);
            },
        }
    }
}

/// How many answers the import of a subscription can still need.
pub open spec fn import_answers_left(stage: ImportStage) -> nat {
    match stage {
        ImportStage::Folder => 4,
        ImportStage::Find { .. } => 3,
        ImportStage::Insert { .. } => 1,
        ImportStage::Current { .. } => 2,
        ImportStage::Move { .. } => 1,
    }
}

/// The import of a subscription ends: each answer to its question brings it
/// on to another subscription, or nearer to that.
pub proof fn law_import_advances(stage: ImportStage, has_feed: bool, event: ImportEvent)
    ensures
        import_step_of(stage, has_feed, event) matches ImportStep::To(next)
            ==> import_answers_left(next) < import_answers_left(stage),
{
}

/// Connected, the server decides where a feed is filed: a feed that is there
/// already comes to be in the server's folder, whatever folder it was in.
pub proof fn law_server_files_feeds(id: i64, folder: Option<i64>, now: Option<i64>)
    ensures
        now == folder ==> import_step_of(
            ImportStage::Current { id, folder },
            true,
            ImportEvent::InFolder(now),
        ) == ImportStep::Settle(id),
        now != folder ==> import_step_of(
            ImportStage::Current { id, folder },
            true,
            ImportEvent::InFolder(now),
        ) == ImportStep::To(ImportStage::Move { id, folder }),
{
}

/// Behind its import a subscription's items are known by both names of its
/// stream.
pub proof fn law_settled_streams(streams: Map<Seq<char>, i64>, feed: FeedPlanView, id: i64)
    ensures
        feed_of(settled(streams, feed, id), feed.stream) == Some(id),
        feed_of(settled(streams, feed, id), "feed/"@ + feed.url) == Some(id),
        forall|other: Seq<char>|
            other != feed.stream && other != "feed/"@ + feed.url ==> #[trigger] feed_of(
                settled(streams, feed, id),
                other,
            ) == feed_of(streams, other),
{
}

// ─────────────────────── subscribing the server ───────────────────────

/// The local feeds that the server lacks, in order.
pub open spec fn local_only(local: Seq<Seq<char>>, server: Seq<Seq<char>>) -> Seq<Seq<char>>
    decreases local.len(),
{
    if local.len() == 0 {
        Seq::empty()
    } else {
        let before = local_only(local.drop_last(), server);
        if server.contains(local.last()) {
            before
        } else {
            before.push(local.last())
        }
    }
}

fn among(list: &Vec<String>, s: &str) -> (r: bool)
    ensures
        r == text::views(list@).contains(s@),
{
    for i in 0..list.len()
        invariant
            forall|j: int| 0 <= j < i ==> #[trigger] text::views(list@)[j] != s@,
    {
        assert(text::views(list@)[i as int] == list@[i as int]@);
        if text::same(list[i].as_str(), s) {
            return true;
        }
    }
    false
}

/// The local feeds that the server lacks, so that each can be subscribed to
/// remotely.
pub fn feeds_to_push(local: &Vec<String>, server: &Vec<String>) -> (r: Vec<String>)
    ensures
        text::views(r@) == local_only(text::views(local@), text::views(server@)),
{
    let ghost all = text::views(local@);
    let mut out: Vec<String> = Vec::new();
    assert(all.take(0) =~= Seq::<Seq<char>>::empty());
    assert(text::views(out@) =~= Seq::<Seq<char>>::empty());
    for i in 0..local.len()
        invariant
            all == text::views(local@),
            text::views(out@) == local_only(all.take(i as int), text::views(server@)),
    {
        assert(all.take(i + 1).drop_last() =~= all.take(i as int));
        let ghost before = out@;
        if !among(server, local[i].as_str()) {
            out.push(local[i].clone());
            assert(text::views(out@) =~= text::views(before).push(local@[i as int]@));
        }
    }
    assert(all.take(all.len() as int) =~= all);
    out
}

/// What is pushed is the set difference: the local feeds that the server does
/// not have, and no others.
pub proof fn law_push_is_a_set_difference(
    local: Seq<Seq<char>>,
    server: Seq<Seq<char>>,
    url: Seq<char>,
)
    ensures
        local_only(local, server).contains(url) <==> local.contains(url) && !server.contains(url),
    decreases local.len(),
{
    if local.len() > 0 {
        law_push_is_a_set_difference(local.drop_last(), server, url);
        let before = local_only(local.drop_last(), server);
        let all = local_only(local, server);
        if local.drop_last().contains(url) {
            let k = choose|k: int| 0 <= k < local.drop_last().len() && local.drop_last()[k] == url;
            assert(local[k] == url);
        }
        if local.contains(url) && url != local.last() {
            let k = choose|k: int| 0 <= k < local.len() && local[k] == url;
            assert(local.drop_last()[k] == url);
        }
        if before.contains(url) {
            let k = choose|k: int| 0 <= k < before.len() && before[k] == url;
            assert(all[k] == url);
        }
        if all.contains(url) && url != local.last() {
            let k = choose|k: int| 0 <= k < all.len() && all[k] == url;
            assert(before[k] == url);
        }
        if url == local.last() && !server.contains(url) {
            assert(all[all.len() - 1] == url);
            assert(local[local.len() - 1] == url);
        }
        if url == local.last() && server.contains(url) {
            assert(!before.contains(url));
        }
    }
}

/// A local feed and the folder it is in.
#[derive(Debug, PartialEq, Eq)]
pub struct FeedTarget {
    pub url: String,
    pub folder: Option<String>,
}

/// The URLs of these feeds.
pub open spec fn target_urls(targets: Seq<FeedTarget>) -> Seq<Seq<char>> {
    targets.map_values(|t: FeedTarget| t.url@)
}

/// The folder of the first feed with this URL.
pub open spec fn target_folder(targets: Seq<FeedTarget>, url: Seq<char>) -> Option<Seq<char>>
    decreases targets.len(),
{
    if targets.len() == 0 {
        None
    } else if targets[0].url@ == url {
        text::view_of(targets[0].folder)
    } else {
        target_folder(targets.drop_first(), url)
    }
}

fn folder_for(targets: &Vec<FeedTarget>, url: &str) -> (r: Option<String>)
    ensures
        text::view_of(r) == target_folder(targets@, url@),
{
    assert(targets@.skip(0) =~= targets@);
    for i in 0..targets.len()
        invariant
            target_folder(targets@, url@) == target_folder(targets@.skip(i as int), url@),
    {
        assert(targets@.skip(i as int)[0] == targets@[i as int]);
        assert(targets@.skip(i as int).drop_first() =~= targets@.skip(i + 1));
        if text::same(targets[i].url.as_str(), url) {
            return match &targets[i].folder {
                Some(folder) => Some(folder.clone()),
                None => None,
            };
        }
    }
    assert(targets@.skip(targets@.len() as int).len() == 0);
    None
}

/// Subscribing the server to the local feeds it lacks, each then filed under
/// its local folder. Neither failing ends the sync.
#[derive(Debug, PartialEq, Eq)]
pub struct SubscribeRun {
    pub targets: Vec<FeedTarget>,
    pub urls: Vec<String>,
    pub at: usize,
    pub filing: bool,
}

/// What a [`SubscribeRun`] needs next; whether it worked is the answer.
#[derive(Debug, PartialEq, Eq)]
pub enum SubscribeAction {
    /// A subscription.
    Subscribe(Request),
    /// The subscription filed under its folder.
    File(Request),
    /// Nothing.
    Done,
}

impl SubscribeRun {
    /// What holds of every such run.
    pub open spec fn wf(self) -> bool {
        &&& self.at <= self.urls@.len()
        &&& self.filing ==> self.at < self.urls@.len() && target_folder(
            self.targets@,
            self.urls@[self.at as int]@,
        ) is Some
    }

    /// The run is the beginning of that for these local feeds, the server
    /// having those URLs.
    pub open spec fn starts(self, targets: Vec<FeedTarget>, server: Seq<Seq<char>>) -> bool {
        &&& self.targets == targets
        &&& text::views(self.urls@) == local_only(target_urls(targets@), server)
        &&& self.at == 0
        &&& !self.filing
    }

    /// No feed is left.
    pub open spec fn is_done(self) -> bool {
        self.at == self.urls@.len()
    }

    /// The run is `before` behind its pending action, which went as `ok`
    /// says: a feed that was subscribed to and is in a folder is filed next.
    pub open spec fn follows(self, before: SubscribeRun, ok: bool) -> bool {
        &&& self.targets == before.targets
        &&& self.urls == before.urls
        &&& if before.is_done() {
            self == before
        } else if ok && !before.filing && target_folder(
            before.targets@,
            before.urls@[before.at as int]@,
        ) is Some {
            self.at == before.at && self.filing
        } else {
            self.at == before.at + 1 && !self.filing
        }
    }

    /// The run for these local feeds, the server having those URLs.
    pub fn new(targets: Vec<FeedTarget>, server: &Vec<String>) -> (r: SubscribeRun)
        ensures
            r.wf(),
            r.starts(targets, text::views(server@)),
    {
        let mut local: Vec<String> = Vec::new();
        for i in 0..targets.len()
            invariant
                text::views(local@) == target_urls(targets@).take(i as int),
        {
            let ghost before = local@;
            local.push(targets[i].url.clone());
            assert(text::views(local@) =~= text::views(before).push(targets@[i as int].url@));
            assert(target_urls(targets@).take(i + 1) =~= target_urls(targets@).take(i as int).push(
                targets@[i as int].url@,
            ));
        }
        assert(target_urls(targets@).take(targets@.len() as int) =~= target_urls(targets@));
        let urls = feeds_to_push(&local, server);
        SubscribeRun { targets, urls, at: 0, filing: false }
    }

    /// This is what the run needs next.
    pub open spec fn wants(self, session: SessionView, r: SubscribeAction) -> bool {
        if self.at == self.urls@.len() {
            r is Done
        } else {
            let url = self.urls@[self.at as int]@;
            if self.filing {
                r matches SubscribeAction::File(request) && request@ == post_request(
                    session,
                    "subscription/edit"@,
                    filing_form(
                        session.token,
                        "feed/"@ + url,
                        Seq::empty(),
                        target_folder(self.targets@, url),
                    ),
                )
            } else {
                r matches SubscribeAction::Subscribe(request) && request@ == subscribe_request(
                    session,
                    url,
                )
            }
        }
    }

    /// What the run needs next.
    pub fn action(&self, session: &Session) -> (r: SubscribeAction)
        requires
            self.wf(),
        ensures
            self.wants(session@, r),
    {
        if self.at == self.urls.len() {
            return SubscribeAction::Done;
        }
        let url = self.urls[self.at].as_str();
        if self.filing {
            let folder = folder_for(&self.targets, url);
            let none: Vec<String> = Vec::new();
            assert(text::views(none@) =~= Seq::<Seq<char>>::empty());
            let stream = text::cat("feed/", url);
            SubscribeAction::File(
                set_subscription_folder(session, stream.as_str(), &none, text::slice_of(&folder)),
            )
        } else {
            SubscribeAction::Subscribe(subscribe_url(session, url))
        }
    }

    /// Goes on behind the pending action, which went as `ok` says.
    pub fn answer(&mut self, ok: bool)
        requires
            old(self).wf(),
        ensures
            final(self).wf(),
            final(self).follows(*old(self), ok),
    {
        if self.at == self.urls.len() {
            return;
        }
        if ok && !self.filing && folder_for(&self.targets, self.urls[self.at].as_str()).is_some() {
            self.filing = true;
        } else {
            self.filing = false;
            self.at = self.at + 1;
        }
    }
}

// ─────────────────────────── the server's articles ───────────────────────────

/// An article of the server's reading list.
#[derive(Debug, PartialEq, Eq)]
pub struct Item {
    pub id: String,
    pub title: Option<String>,
    pub author: Option<String>,
    pub published: Option<i64>,
    pub summary: Option<String>,
    pub content: Option<String>,
    pub origin: Option<String>,
    pub categories: Vec<String>,
    pub canonical: Vec<String>,
    pub alternate: Vec<String>,
}

/// How the server's articles are asked for.
#[derive(Debug, PartialEq, Eq)]
pub enum PullPlan {
    /// By this request for their ids.
    Ids(Request),
    /// By this request for the articles themselves.
    Contents(Request),
}

/// The request for the ids of the recent articles of the reading list.
pub open spec fn ids_request(session: SessionView) -> RequestView {
    get_request(
        session,
        "stream/items/ids?output=json&s=user/-/state/com.google/reading-list&n=1000"@,
    )
}

/// The request for the recent articles of the reading list.
pub open spec fn contents_request(session: SessionView) -> RequestView {
    get_request(
        session,
        "stream/contents/user/-/state/com.google/reading-list?output=json&n=1000"@,
    )
}

/// The request for the articles with these ids.
pub open spec fn items_request(session: SessionView, ids: Seq<Seq<char>>) -> RequestView {
    post_request(
        session,
        "stream/items/contents"@,
        seq![("T"@, session.token), ("output"@, "json"@)] + id_fields(ids),
    )
}

/// How the server's recent articles are asked for: Miniflux wants their ids
/// asked for first.
pub fn pull_contents(session: &Session, provider: Provider) -> (r: PullPlan)
    ensures
        match provider {
            Provider::Miniflux => r matches PullPlan::Ids(request) && request@ == ids_request(
                session@,
            ),
            Provider::FreshRss => r matches PullPlan::Contents(request) && request@
                == contents_request(session@),
        },
{
    match provider {
        Provider::Miniflux => PullPlan::Ids(
            session.get(
                "stream/items/ids?output=json&s=user/-/state/com.google/reading-list&n=1000",
            ),
        ),
        Provider::FreshRss => PullPlan::Contents(
            session.get("stream/contents/user/-/state/com.google/reading-list?output=json&n=1000"),
        ),
    }
}

/// One `i` field for each id.
pub open spec fn id_fields(ids: Seq<Seq<char>>) -> Seq<(Seq<char>, Seq<char>)> {
    ids.map_values(|id: Seq<char>| ("i"@, id))
}

/// The request for the articles with these ids; `None` where there are none.
pub fn pull_items(session: &Session, ids: &Vec<String>) -> (r: Option<Request>)
    ensures
        r is None <==> ids@.len() == 0,
        r matches Some(request) ==> request@ == items_request(session@, text::views(ids@)),
{
    if ids.len() == 0 {
        return None;
    }
    let mut form = crate::net::pairs2("T", session.token.as_str(), "output", "json");
    let ghost start = pairs(form@);
    let ghost all = id_fields(text::views(ids@));
    assert(start + all.take(0) =~= start);
    for i in 0..ids.len()
        invariant
            pairs(form@) == start + all.take(i as int),
            all == id_fields(text::views(ids@)),
    {
        put_pair(&mut form, "i", ids[i].as_str());
        assert(start + all.take(i + 1) =~= (start + all.take(i as int)).push(
            ("i"@, ids@[i as int]@),
        ));
    }
    assert(all.take(all.len() as int) =~= all);
    Some(session.post("stream/items/contents", form))
}

/// The first of two lists' first texts.
pub open spec fn first_href(canonical: Seq<String>, alternate: Seq<String>) -> Option<Seq<char>> {
    if canonical.len() > 0 {
        Some(canonical[0]@)
    } else if alternate.len() > 0 {
        Some(alternate[0]@)
    } else {
        None
    }
}

/// The URL of an item: its canonical link, or else its alternate one.
pub open spec fn url_of(item: Item) -> Option<Seq<char>> {
    text::nonempty_of(text::trimmed_of(first_href(item.canonical@, item.alternate@)))
}

/// The URL of an item.
pub fn item_url(item: &Item) -> (r: Option<String>)
    ensures
        text::view_of(r) == url_of(*item),
{
    if item.canonical.len() > 0 {
        text::named(Some(item.canonical[0].as_str()))
    } else if item.alternate.len() > 0 {
        text::named(Some(item.alternate[0].as_str()))
    } else {
        None
    }
}

/// The RFC 3339 text that `chrono` writes for a time in UTC, so many seconds
/// and nanoseconds behind the epoch, where it can hold that time.
pub uninterp spec fn rfc3339_utc(seconds: int, nanos: int) -> Option<Seq<char>>;

/// `chrono`'s `Utc.timestamp_opt` and `DateTime::to_rfc3339`: the result is
/// fixed by the arguments.
#[verifier::external_body]
fn rfc3339(seconds: i64, nanos: u32) -> (r: Option<String>)
    ensures
        text::view_of(r) == rfc3339_utc(seconds as int, nanos as int),
{
    chrono::Utc.timestamp_opt(seconds, nanos).single().map(|time| time.to_rfc3339())
}

/// A point in time: seconds and nanoseconds behind the epoch.
#[derive(Clone, Copy, Debug, PartialEq, Eq, Structural)]
pub struct Instant {
    pub seconds: i64,
    pub nanos: u32,
}

/// When an item says it was published, as far as that is a date at all.
pub open spec fn date_of(item: Item) -> Option<i64> {
    match item.published {
        Some(seconds) => if rfc3339_utc(seconds as int, 0) is Some {
            Some(seconds)
        } else {
            None
        },
        None => None,
    }
}

/// When an item says it was published, as far as that is a date at all.
pub fn item_date(item: &Item) -> (r: Option<i64>)
    ensures
        r == date_of(*item),
{
    match item.published {
        Some(seconds) => if rfc3339(seconds, 0).is_some() {
            Some(seconds)
        } else {
            None
        },
        None => None,
    }
}

/// The HTML of an item: its content, or else its summary, unless blank.
pub open spec fn html_of(item: Item) -> Option<Seq<char>> {
    let source = match item.content {
        Some(c) => Some(c@),
        None => text::view_of(item.summary),
    };
    text::nonempty_of(text::trimmed_of(source))
}

/// The article that an item makes, published at that time.
pub open spec fn article_of(
    item: Item,
    url: Option<Seq<char>>,
    published: Option<Instant>,
) -> NewArticleView {
    assembled(
        item,
        url,
        html_of(item),
        match html_of(item) {
            Some(html) => Some(collapsed_text(fragment_edges(html))),
            None => None,
        },
        match item.summary {
            Some(s) => Some(collapsed_text(fragment_edges(s@))),
            None => None,
        },
        match published {
            Some(at) => rfc3339_utc(at.seconds as int, at.nanos as int),
            None => None,
        },
    )
}

/// The article that an item makes of these parts: its HTML, the text of that
/// and of its summary, and its date.
pub open spec fn assembled(
    item: Item,
    url: Option<Seq<char>>,
    html: Option<Seq<char>>,
    body_text: Option<Seq<char>>,
    summary_text: Option<Seq<char>>,
    published_at: Option<Seq<char>>,
) -> NewArticleView {
    NewArticleView {
        guid: item.id@,
        url,
        title: text::or_else(
            text::nonempty_of(text::trimmed_of(text::view_of(item.title))),
            "Untitled"@,
        ),
        author: match item.author {
            Some(a) => if text::trimmed(a@).len() == 0 {
                None
            } else {
                Some(a@)
            },
            None => None,
        },
        summary: text::nonempty_of(summary_text),
        content_html: html,
        body_text: text::or_else(body_text, Seq::empty()),
        image_url: None,
        published_at,
        enclosures: Seq::empty(),
    }
}

/// The article that an item makes of these parts.
pub fn assemble_article(
    item: &Item,
    url: Option<String>,
    html: Option<String>,
    body_text: Option<String>,
    summary_text: Option<String>,
    published_at: Option<String>,
) -> (r: NewArticle)
    ensures
        r@ == assembled(
            *item,
            text::view_of(url),
            text::view_of(html),
            text::view_of(body_text),
            text::view_of(summary_text),
            text::view_of(published_at),
        ),
{
    let author = match &item.author {
        Some(a) => if text::trim(a.as_str()).as_str().is_empty() {
            None
        } else {
            Some(a.clone())
        },
        None => None,
    };
    let body_text = match body_text {
        Some(body_text) => body_text,
        None => String::new(),
    };
    let enclosures: Vec<String> = Vec::new();
    assert(text::views(enclosures@) =~= Seq::<Seq<char>>::empty());
    NewArticle {
        guid: item.id.clone(),
        url,
        title: text::or(text::named(text::slice_of(&item.title)), "Untitled"),
        author,
        summary: text::nonempty(summary_text),
        content_html: html,
        body_text,
        image_url: None,
        published_at,
        enclosures,
    }
}

/// The article that an item makes. `published` is its date as the caller
/// lets it stand.
pub fn item_article(item: &Item, url: Option<String>, published: Option<Instant>) -> (r: NewArticle)
    ensures
        r@ == article_of(*item, text::view_of(url), published),
{
    let html = match &item.content {
        Some(c) => text::named(Some(c.as_str())),
        None => text::named(text::slice_of(&item.summary)),
    };
    let body_text = match &html {
        Some(html) => Some(html_to_text(html.as_str())),
        None => None,
    };
    let summary_text = match &item.summary {
        Some(s) => Some(html_to_text(s.as_str())),
        None => None,
    };
    let published_at = match published {
        Some(at) => rfc3339(at.seconds, at.nanos),
        None => None,
    };
    assemble_article(item, url, html, body_text, summary_text, published_at)
}

/// What a sync has to know of an item: its URL, the local feed it belongs to,
/// and its state on the server.
#[derive(Debug, PartialEq, Eq)]
pub struct ItemPlan {
    pub item: Item,
    pub url: Option<String>,
    pub feed: Option<i64>,
    pub read: bool,
    pub starred: bool,
}

/// One of an item's categories says `tag`.
pub open spec fn tagged(item: Item, tag: Seq<char>) -> bool {
    exists|i: int|
        0 <= i < item.categories@.len() && says_tag(#[trigger] item.categories@[i]@, tag)
}

/// The local feed of an item.
pub open spec fn item_feed(item: Item, streams: Map<Seq<char>, i64>) -> Option<i64> {
    match item.origin {
        Some(stream) => feed_of(streams, stream@),
        None => None,
    }
}

/// `plan` is what has to be known of `item`.
pub open spec fn plans_item(plan: ItemPlan, item: Item, streams: Map<Seq<char>, i64>) -> bool {
    &&& plan.item == item
    &&& text::view_of(plan.url) == url_of(item)
    &&& plan.feed == item_feed(item, streams)
    &&& plan.read == tagged(item, "user/-/state/com.google/read"@)
    &&& plan.starred == tagged(item, "user/-/state/com.google/starred"@)
}

/// What has to be known of an item.
pub fn plan_item(item: Item, streams: &StreamMap) -> (r: ItemPlan)
    ensures
        plans_item(r, item, streams@),
{
    let url = item_url(&item);
    let feed = match &item.origin {
        Some(stream) => streams.get(stream.as_str()),
        None => None,
    };
    let read = has_state_tag(&item.categories, READ_TAG);
    let starred = has_state_tag(&item.categories, STARRED_TAG);
    ItemPlan { item, url, feed, read, starred }
}

/// Where the reconciliation of one item stands.
#[derive(Clone, Copy, Debug, PartialEq, Eq, Structural)]
pub enum ItemStage {
    /// The article with its URL is looked for.
    ByUrl,
    /// The feed's article with its id is looked for.
    ByGuid,
    /// Its date is to be set right.
    Date,
    /// The article is made.
    Insert { published: Option<Instant> },
    /// The made article is looked for.
    Inserted,
    /// The article gets the item's id.
    RemoteId { article: i64 },
    /// The article gets the item's state.
    State { article: i64 },
    /// The article's queued local changes are dropped.
    Clear { article: i64 },
}

/// What the store says to the reconciliation of an item.
#[derive(Clone, Copy, Debug, PartialEq, Eq, Structural)]
pub enum ItemEvent {
    /// The article that was looked for.
    Found(Option<i64>),
    /// The date as it may stand.
    Dated(Instant),
    /// The article was stored; whether it is new.
    Stored(bool),
    /// What was asked for is done.
    Done,
}

/// What an event leads to.
#[derive(Clone, Copy, Debug, PartialEq, Eq, Structural)]
pub enum ItemStep {
    /// It answers another question: nothing changes.
    Stay,
    /// This comes next.
    To(ItemStage),
    /// This comes next, and one more unread article was made.
    Count(ItemStage),
    /// The item is reconciled; the next follows.
    Settle,
    /// The item is passed over; the next follows.
    Skip,
}

/// What an event leads to. `feed` says whether the item's feed is known,
/// `date` whether it has a date.
pub open spec fn item_step_of(
    stage: ItemStage,
    feed: bool,
    date: bool,
    read: bool,
    event: ItemEvent,
) -> ItemStep {
    match (stage, event) {
        (ItemStage::ByUrl, ItemEvent::Found(Some(article))) => ItemStep::To(
            ItemStage::RemoteId { article },
        ),
        (ItemStage::ByUrl, ItemEvent::Found(None)) => if feed {
            ItemStep::To(ItemStage::ByGuid)
        } else {
            ItemStep::Skip
        },
        (ItemStage::ByGuid, ItemEvent::Found(Some(article))) => ItemStep::To(
            ItemStage::RemoteId { article },
        ),
        (ItemStage::ByGuid, ItemEvent::Found(None)) => if date {
            ItemStep::To(ItemStage::Date)
        } else {
            ItemStep::To(ItemStage::Insert { published: None })
        },
        (ItemStage::Date, ItemEvent::Dated(at)) => ItemStep::To(
            ItemStage::Insert { published: Some(at) },
        ),
        (ItemStage::Insert { .. }, ItemEvent::Stored(new)) => if new && !read {
            ItemStep::Count(ItemStage::Inserted)
        } else {
            ItemStep::To(ItemStage::Inserted)
        },
        (ItemStage::Inserted, ItemEvent::Found(Some(article))) => ItemStep::To(
            ItemStage::RemoteId { article },
        ),
        (ItemStage::Inserted, ItemEvent::Found(None)) => ItemStep::Skip,
        (ItemStage::RemoteId { article }, ItemEvent::Done) => ItemStep::To(
            ItemStage::State { article },
        ),
        (ItemStage::State { article }, ItemEvent::Done) => ItemStep::To(
            ItemStage::Clear { article },
        ),
        (ItemStage::Clear { .. }, ItemEvent::Done) => ItemStep::Settle,
        _ => ItemStep::Stay,
    }
}

/// What an event leads to.
pub fn item_step(stage: ItemStage, feed: bool, date: bool, read: bool, event: ItemEvent) -> (r:
    ItemStep)
    ensures
        r == item_step_of(stage, feed, date, read, event),
{
    match (stage, event) {
        (ItemStage::ByUrl, ItemEvent::Found(found)) => match found {
            Some(article) => ItemStep::To(ItemStage::RemoteId { article }),
            None => if feed {
                ItemStep::To(ItemStage::ByGuid)
            } else {
                ItemStep::Skip
            },
        },
        (ItemStage::ByGuid, ItemEvent::Found(found)) => match found {
            Some(article) => ItemStep::To(ItemStage::RemoteId { article }),
            None => if date {
                ItemStep::To(ItemStage::Date)
            } else {
                ItemStep::To(ItemStage::Insert { published: None })
            },
        },
        (ItemStage::Date, ItemEvent::Dated(at)) => ItemStep::To(
            ItemStage::Insert { published: Some(at) },
        ),
        (ItemStage::Insert { .. }, ItemEvent::Stored(new)) => if new && !read {
            ItemStep::Count(ItemStage::Inserted)
        } else {
            ItemStep::To(ItemStage::Inserted)
        },
        (ItemStage::Inserted, ItemEvent::Found(found)) => match found {
            Some(article) => ItemStep::To(ItemStage::RemoteId { article }),
            None => ItemStep::Skip,
        },
        (ItemStage::RemoteId { article }, ItemEvent::Done) => ItemStep::To(
            ItemStage::State { article },
        ),
        (ItemStage::State { article }, ItemEvent::Done) => ItemStep::To(
            ItemStage::Clear { article },
        ),
        (ItemStage::Clear { .. }, ItemEvent::Done) => ItemStep::Settle,
        _ => ItemStep::Stay,
    }
}

/// The reconciliation of the server's articles with the local ones. The
/// server is the source of truth: its articles are made where they are
/// missing, and its state overwrites the local one.
#[derive(Debug, PartialEq, Eq)]
pub struct ItemRun {
    pub plans: Vec<ItemPlan>,
    pub at: usize,
    pub stage: ItemStage,
    pub inserted: usize,
    pub reconciled: usize,
}

/// What an [`ItemRun`] needs next. A failure of any of these ends the sync.
#[derive(Debug, PartialEq, Eq)]
pub enum ItemAction {
    /// The article with this URL.
    ArticleByUrl(String),
    /// This feed's article with this id.
    ArticleByGuid { feed: i64, guid: String },
    /// This date, as it may stand for a publication.
    SetRight(i64),
    /// This article stored under this feed.
    Store { feed: i64, content: NewArticle },
    /// This article's id on the server.
    SetRemoteId { article: i64, remote_id: String },
    /// This article's state.
    SetState { article: i64, read: bool, starred: bool },
    /// This article's queued changes dropped.
    ClearQueue(i64),
    /// Nothing: so many unread articles were made.
    Done(usize),
}

/// An item that can be matched or made: it has a URL, or its feed is known.
pub open spec fn is_placed(plan: ItemPlan) -> bool {
    plan.url is Some || plan.feed is Some
}

/// Where the reconciliation of the item with this plan starts.
pub open spec fn first_item_stage(plans: Seq<ItemPlan>, at: int) -> ItemStage {
    if 0 <= at < plans.len() && plans[at].url is None {
        ItemStage::ByGuid
    } else {
        ItemStage::ByUrl
    }
}

fn first_item(plans: &Vec<ItemPlan>, at: usize) -> (r: ItemStage)
    ensures
        r == first_item_stage(plans@, at as int),
{
    if at < plans.len() && plans[at].url.is_none() {
        ItemStage::ByGuid
    } else {
        ItemStage::ByUrl
    }
}

/// `plans` are what has to be known of `items`, in order, but for the items
/// that can be neither matched nor made.
pub open spec fn plans_items(
    plans: Seq<ItemPlan>,
    items: Seq<Item>,
    streams: Map<Seq<char>, i64>,
) -> bool
    decreases items.len(),
{
    if items.len() == 0 {
        plans.len() == 0
    } else if url_of(items.last()) is None && item_feed(items.last(), streams) is None {
        plans_items(plans, items.drop_last(), streams)
    } else {
        &&& plans.len() > 0
        &&& plans_item(plans.last(), items.last(), streams)
        &&& plans_items(plans.drop_last(), items.drop_last(), streams)
    }
}

impl ItemRun {
    /// What holds of every reconciliation: the stage asks for something that
    /// its plan has, and no more is counted than was gone through.
    pub open spec fn wf(self) -> bool {
        &&& self.at <= self.plans@.len()
        &&& forall|i: int| 0 <= i < self.plans@.len() ==> is_placed(#[trigger] self.plans@[i])
        &&& self.reconciled <= self.at
        &&& self.inserted <= self.at + (match self.stage {
            ItemStage::ByUrl | ItemStage::ByGuid | ItemStage::Date | ItemStage::Insert { .. } => 0int,
            _ => 1int,
        })
        &&& self.at == self.plans@.len() ==> self.inserted <= self.at
        &&& self.at < self.plans@.len() ==> match self.stage {
            ItemStage::ByUrl => self.plans@[self.at as int].url is Some,
            ItemStage::ByGuid | ItemStage::Insert { .. } | ItemStage::Inserted => self.plans@[self.at as int].feed is Some,
            ItemStage::Date => self.plans@[self.at as int].feed is Some && date_of(
                self.plans@[self.at as int].item,
            ) is Some,
            _ => true,
        }
    }

    /// The run is the beginning of the reconciliation of these items, the
    /// streams belonging to those feeds.
    pub open spec fn starts(self, items: Seq<Item>, streams: Map<Seq<char>, i64>) -> bool {
        &&& plans_items(self.plans@, items, streams)
        &&& self.at == 0
        &&& self.stage == first_item_stage(self.plans@, 0)
        &&& self.inserted == 0
        &&& self.reconciled == 0
    }

    /// No item is left.
    pub open spec fn is_done(self) -> bool {
        self.at == self.plans@.len()
    }

    /// The run is `before` behind the store's answer to its pending action.
    pub open spec fn follows(self, before: ItemRun, event: ItemEvent) -> bool {
        let at = before.at as int;
        let plans = before.plans@;
        let step = if at < plans.len() {
            item_step_of(
                before.stage,
                plans[at].feed is Some,
                date_of(plans[at].item) is Some,
                plans[at].read,
                event,
            )
        } else {
            ItemStep::Stay
        };
        &&& self.plans == before.plans
        &&& match step {
            ItemStep::Stay => self == before,
            ItemStep::To(stage) => self.at == at && self.stage == stage && self.inserted
                == before.inserted && self.reconciled == before.reconciled,
            ItemStep::Count(stage) => self.at == at && self.stage == stage && self.inserted
                == before.inserted + 1 && self.reconciled == before.reconciled,
            ItemStep::Settle => self.at == at + 1 && self.stage == first_item_stage(plans, at + 1)
                && self.inserted == before.inserted && self.reconciled == before.reconciled + 1,
            ItemStep::Skip => self.at == at + 1 && self.stage == first_item_stage(plans, at + 1)
                && self.inserted == before.inserted && self.reconciled == before.reconciled,
        }
    }

    /// The reconciliation of these items, the streams belonging to those
    /// feeds.
    pub fn new(items: Vec<Item>, streams: &StreamMap) -> (r: ItemRun)
        ensures
            r.wf(),
            r.starts(items@, streams@),
    {
        let ghost all = items@;
        let mut plans: Vec<ItemPlan> = Vec::new();
        assert(all.take(0) =~= Seq::<Item>::empty());
        for item in it: items
            invariant
                it.seq() == all,
                plans_items(plans@, all.take(it.index()), streams@),
                forall|i: int| 0 <= i < plans@.len() ==> is_placed(#[trigger] plans@[i]),
        {
            let ghost made = plans@;
            assert(all.take(it.index() + 1).drop_last() =~= all.take(it.index()));
            let plan = plan_item(item, streams);
            if plan.url.is_some() || plan.feed.is_some() {
                plans.push(plan);
                assert(plans@.drop_last() =~= made);
            }
        }
        assert(all.take(all.len() as int) =~= all);
        let stage = first_item(&plans, 0);
        ItemRun { plans, at: 0, stage, inserted: 0, reconciled: 0 }
    }

    /// This is what the reconciliation needs next.
    pub open spec fn wants(self, r: ItemAction) -> bool {
        if self.at == self.plans@.len() {
            r == ItemAction::Done(self.inserted)
        } else {
            let plan = self.plans@[self.at as int];
            match self.stage {
                ItemStage::ByUrl => r matches ItemAction::ArticleByUrl(url) && Some(url@)
                    == text::view_of(plan.url),
                ItemStage::ByGuid | ItemStage::Inserted => r matches ItemAction::ArticleByGuid {
                    feed,
                    guid,
                } && Some(feed) == plan.feed && guid@ == plan.item.id@,
                ItemStage::Date => r matches ItemAction::SetRight(seconds) && Some(seconds)
                    == date_of(plan.item),
                ItemStage::Insert { published } => r matches ItemAction::Store {
                    feed,
                    content,
                } && Some(feed) == plan.feed && content@ == article_of(
                    plan.item,
                    text::view_of(plan.url),
                    published,
                ),
                ItemStage::RemoteId { article } => r matches ItemAction::SetRemoteId {
                    article: a,
                    remote_id,
                } && a == article && remote_id@ == plan.item.id@,
                ItemStage::State { article } => r == (ItemAction::SetState {
                    article,
                    read: plan.read,
                    starred: plan.starred,
                }),
                ItemStage::Clear { article } => r == ItemAction::ClearQueue(article),
            }
        }
    }

    /// What the reconciliation needs next.
    pub fn action(&self) -> (r: ItemAction)
        requires
            self.wf(),
        ensures
            self.wants(r),
    {
        if self.at == self.plans.len() {
            return ItemAction::Done(self.inserted);
        }
        let plan = &self.plans[self.at];
        match self.stage {
            ItemStage::ByUrl => match &plan.url {
                Some(url) => ItemAction::ArticleByUrl(url.clone()),
                None => ItemAction::Done(self.inserted),
            },
            ItemStage::ByGuid | ItemStage::Inserted => match plan.feed {
                Some(feed) => ItemAction::ArticleByGuid { feed, guid: plan.item.id.clone() },
                None => ItemAction::Done(self.inserted),
            },
            ItemStage::Date => match item_date(&plan.item) {
                Some(seconds) => ItemAction::SetRight(seconds),
                None => ItemAction::Done(self.inserted),
            },
            ItemStage::Insert { published } => match plan.feed {
                Some(feed) => {
                    let url = match &plan.url {
                        Some(url) => Some(url.clone()),
                        None => None,
                    };
                    ItemAction::Store { feed, content: item_article(&plan.item, url, published) }
                },
                None => ItemAction::Done(self.inserted),
            },
            ItemStage::RemoteId { article } => ItemAction::SetRemoteId {
                article,
                remote_id: plan.item.id.clone(),
            },
            ItemStage::State { article } => ItemAction::SetState {
                article,
                read: plan.read,
                starred: plan.starred,
            },
            ItemStage::Clear { article } => ItemAction::ClearQueue(article),
        }
    }

    /// Goes on behind the store's answer to the pending action.
    pub fn answer(&mut self, event: ItemEvent)
        requires
            old(self).wf(),
        ensures
            final(self).wf(),
            final(self).follows(*old(self), event),
    {
        if self.at == self.plans.len() {
            return;
        }
        let plan = &self.plans[self.at];
        let feed = plan.feed.is_some();
        let read = plan.read;
        let date = item_date(&plan.item).is_some();
        match item_step(self.stage, feed, date, read, event) {
            ItemStep::Stay => {},
            ItemStep::To(stage) => {
                self.stage = stage;
            },
            ItemStep::Count(stage) => {
                self.inserted = self.inserted + 1;
                self.stage = stage;
            },
            ItemStep::Settle => {
                self.reconciled = self.reconciled + 1;
                self.at = self.at + 1;
                self.stage = first_item(&self.plans, self.at);
            },
            ItemStep::Skip => {
                self.at = self.at + 1;
                self.stage = first_item(&self.plans, self.at);
            },
        }
    }
}

/// How many answers the reconciliation of an item can still need.
pub open spec fn item_answers_left(stage: ItemStage) -> nat {
    match stage {
        ItemStage::ByUrl => 8,
        ItemStage::ByGuid => 7,
        ItemStage::Date => 6,
        ItemStage::Insert { .. } => 5,
        ItemStage::Inserted => 4,
        ItemStage::RemoteId { .. } => 3,
        ItemStage::State { .. } => 2,
        ItemStage::Clear { .. } => 1,
    }
}

/// The reconciliation of an item ends: each answer to its question brings it
/// on to another item, or nearer to that.
pub proof fn law_items_advance(
    stage: ItemStage,
    feed: bool,
    date: bool,
    read: bool,
    event: ItemEvent,
)
    ensures
        item_step_of(stage, feed, date, read, event) matches ItemStep::To(next)
            ==> item_answers_left(next) < item_answers_left(stage),
        item_step_of(stage, feed, date, read, event) matches ItemStep::Count(next)
            ==> item_answers_left(next) < item_answers_left(stage),
{
}

/// An item is reconciled only behind three steps for one and the same local
/// article: it gets the item's id, then the item's state, and then its queued
/// local changes are dropped.
pub proof fn law_reconciliation_is_complete(
    stage: ItemStage,
    feed: bool,
    date: bool,
    read: bool,
    event: ItemEvent,
)
    ensures
        item_step_of(stage, feed, date, read, event) == ItemStep::Settle ==> stage is Clear,
        item_step_of(stage, feed, date, read, event) matches ItemStep::To(
            ItemStage::Clear { article },
        ) ==> stage == (ItemStage::State { article }),
        item_step_of(stage, feed, date, read, event) matches ItemStep::To(
            ItemStage::State { article },
        ) ==> stage == (ItemStage::RemoteId { article }),
{
}

/// Only an article that is new to the store and unread on the server counts
/// as inserted.
pub proof fn law_inserted_counts_new_unread(
    stage: ItemStage,
    feed: bool,
    date: bool,
    read: bool,
    event: ItemEvent,
)
    ensures
        item_step_of(stage, feed, date, read, event) is Count <==> stage is Insert && event
            == ItemEvent::Stored(true) && !read,
{
}

// ───────────────────────── what an item says ─────────────────────────

/// An item's content comes first: where it has any that is not blank, that is
/// the article's HTML, trimmed, and its text is the article's, whatever the
/// summary says.
pub proof fn law_content_comes_first(
    item: Item,
    url: Option<Seq<char>>,
    published: Option<Instant>,
    content: Seq<char>,
)
    requires
        text::view_of(item.content) == Some(content),
    ensures
        text::trimmed(content).len() > 0 ==> article_of(item, url, published).content_html == Some(
            text::trimmed(content),
        ) && article_of(item, url, published).body_text == collapsed_text(
            fragment_edges(text::trimmed(content)),
        ),
        text::trimmed(content).len() == 0 ==> article_of(item, url, published).content_html is None
            && article_of(item, url, published).body_text == Seq::<char>::empty(),
{
}

/// The summary stands in for the content only where there is none, and an item
/// with neither has no text.
pub proof fn law_summaries_stand_in(item: Item, url: Option<Seq<char>>, published: Option<Instant>)
    requires
        item.content is None,
    ensures
        item.summary is None ==> article_of(item, url, published).content_html is None
            && article_of(item, url, published).body_text == Seq::<char>::empty(),
        item.summary matches Some(s) ==> text::trimmed(s@).len() == 0 ==> article_of(
            item,
            url,
            published,
        ).content_html is None && article_of(item, url, published).body_text == Seq::<
            char,
        >::empty(),
        item.summary matches Some(s) ==> text::trimmed(s@).len() > 0 ==> article_of(
            item,
            url,
            published,
        ).content_html == Some(text::trimmed(s@)) && article_of(item, url, published).body_text
            == collapsed_text(fragment_edges(text::trimmed(s@))),
{
}

/// Two items with the same content make articles with the same HTML and text,
/// whatever else they say.
pub proof fn law_only_the_content_counts(
    a: Item,
    b: Item,
    url: Option<Seq<char>>,
    published: Option<Instant>,
)
    requires
        a.content is Some,
        text::view_of(a.content) == text::view_of(b.content),
    ensures
        article_of(a, url, published).content_html == article_of(b, url, published).content_html,
        article_of(a, url, published).body_text == article_of(b, url, published).body_text,
{
}

/// An article keeps the item's id, title, author, summary and date, and the URL
/// that it is given.
pub proof fn law_articles_say_what_the_item_says(
    item: Item,
    url: Option<Seq<char>>,
    published: Option<Instant>,
)
    ensures
        ({
            let a = article_of(item, url, published);
            &&& a.guid == item.id@
            &&& a.url == url
            &&& a.title == (match item.title {
                Some(t) => if text::trimmed(t@).len() > 0 {
                    text::trimmed(t@)
                } else {
                    "Untitled"@
                },
                None => "Untitled"@,
            })
            &&& a.author == (match item.author {
                Some(name) => if text::trimmed(name@).len() > 0 {
                    Some(name@)
                } else {
                    None
                },
                None => None,
            })
            &&& item.summary is None ==> a.summary is None
            &&& item.summary matches Some(s) ==> {
                let shown = collapsed_text(fragment_edges(s@));
                &&& shown.len() > 0 ==> a.summary == Some(shown)
                &&& shown.len() == 0 ==> a.summary is None
            }
            &&& published is None ==> a.published_at is None
            &&& published matches Some(at) ==> a.published_at == rfc3339_utc(
                at.seconds as int,
                at.nanos as int,
            )
            &&& a.image_url is None
            &&& a.enclosures.len() == 0
        }),
{
}

// ───────────────────────── how a sync goes ─────────────────────────

/// Every push counts once: one that was taken adds to those pushed, one that
/// was refused is remembered by its place.
pub proof fn law_pushes_are_counted(outcomes: Seq<bool>)
    ensures
        taken(Seq::empty()) == 0,
        refused(Seq::empty()) == Seq::<int>::empty(),
        taken(outcomes.push(true)) == taken(outcomes) + 1,
        taken(outcomes.push(false)) == taken(outcomes),
        refused(outcomes.push(true)) == refused(outcomes),
        refused(outcomes.push(false)) == refused(outcomes).push(outcomes.len() as int),
{
    assert(outcomes.push(true).drop_last() =~= outcomes);
    assert(outcomes.push(false).drop_last() =~= outcomes);
}

/// The queue is pushed in order: while changes are left to send, the next one
/// is sent with its own article, field and value; then each that was refused is
/// queued again, in order; and at the end the number of those taken is given.
pub proof fn law_pushes_send_the_queue(run: PushRun, session: SessionView, r: PushAction)
    requires
        run.wants(session, r),
    ensures
        ({
            let sent = run.outcomes().len() as int;
            let again = refused(run.outcomes());
            &&& sent < run.queue().len() ==> (r matches PushAction::Send(request) && request@
                == state_request(
                session,
                run.queue()[sent].remote_id@,
                run.queue()[sent].field@,
                run.queue()[sent].value,
            ))
            &&& sent >= run.queue().len() && run.requeued() < again.len() ==> r
                == PushAction::Requeue(run.queue()[again[run.requeued() as int]])
            &&& sent >= run.queue().len() && run.requeued() >= again.len() ==> r
                == PushAction::Done(taken(run.outcomes()) as usize)
        }),
{
}

/// A push goes on by one at a time: an answer to a change that was sent is kept
/// with it, and one to a change that was queued again lets the next be.
pub proof fn law_pushes_go_on(before: PushRun, after: PushRun, ok: bool, queue: Seq<SyncEntry>)
    ensures
        before.starts(queue) ==> before.queue() == queue && before.outcomes().len() == 0
            && before.requeued() == 0,
        after.follows(before, ok) ==> after.queue() == before.queue(),
        after.follows(before, ok) && before.outcomes().len() < before.queue().len()
            ==> after.outcomes() == before.outcomes().push(ok) && after.requeued()
            == before.requeued(),
        after.follows(before, ok) && before.outcomes().len() >= before.queue().len()
            ==> after.outcomes() == before.outcomes() && (before.requeued() < refused(
            before.outcomes(),
        ).len() ==> after.requeued() == before.requeued() + 1),
        before.is_done() <==> before.outcomes().len() >= before.queue().len() && before.requeued()
            >= refused(before.outcomes()).len(),
{
}

/// A subscription calls for its folder, and for a feed exactly where it has a
/// URL: under that URL, trimmed, and under its own title or else the URL.
pub proof fn law_subscriptions_call_for_feeds(sub: Sub)
    ensures
        plan_of(sub).folder == folder_among(sub.categories@),
        plan_of(sub).feed is Some <==> (sub.url matches Some(u) && text::trimmed(u@).len() > 0),
        plan_of(sub).feed matches Some(feed) ==> feed.url == text::trimmed(sub.url->0@)
            && feed.stream == stream_of(sub, feed.url) && feed.title == (match sub.title {
            Some(title) => title@,
            None => feed.url,
        }),
{
}

/// Every subscription that calls for anything is taken over, in order, and
/// every URL that the server has is known.
pub proof fn law_every_subscription_is_taken_over(subs: Seq<Sub>, sub: Sub)
    ensures
        plans_of(Seq::empty()) == Seq::<SubPlanView>::empty(),
        plans_of(subs.push(sub)) == (if plan_of(sub).folder is Some || plan_of(sub).feed is Some {
            plans_of(subs).push(plan_of(sub))
        } else {
            plans_of(subs)
        }),
        urls_of(Seq::empty()) == Seq::<Seq<char>>::empty(),
        urls_of(subs.push(sub)) == (match sub.url {
            Some(url) => if url@.len() > 0 {
                urls_of(subs).push(url@)
            } else {
                urls_of(subs)
            },
            None => urls_of(subs),
        }),
{
    assert(subs.push(sub).drop_last() =~= subs);
}

/// A subscription is taken over by its steps: its folder's id lets its feed be
/// looked for, a feed that is missing is made in that folder, and the feed that
/// was made, found in place or moved is the subscription's.
pub proof fn law_how_subscriptions_are_taken_over(
    id: i64,
    folder: Option<i64>,
    now: Option<i64>,
    name: i64,
    has_feed: bool,
)
    ensures
        import_step_of(ImportStage::Folder, true, ImportEvent::FolderId(name)) == ImportStep::To(
            ImportStage::Find { folder: Some(name) },
        ),
        import_step_of(ImportStage::Folder, false, ImportEvent::FolderId(name)) == ImportStep::Skip,
        import_step_of(ImportStage::Find { folder }, has_feed, ImportEvent::Found(None))
            == ImportStep::To(ImportStage::Insert { folder }),
        import_step_of(ImportStage::Find { folder }, has_feed, ImportEvent::Found(Some(id)))
            == ImportStep::To(ImportStage::Current { id, folder }),
        import_step_of(ImportStage::Insert { folder }, has_feed, ImportEvent::Inserted(id))
            == ImportStep::Settle(id),
        import_step_of(
            ImportStage::Current { id, folder },
            has_feed,
            ImportEvent::InFolder(folder),
        ) == ImportStep::Settle(id),
        now != folder ==> import_step_of(
            ImportStage::Current { id, folder },
            has_feed,
            ImportEvent::InFolder(now),
        ) == ImportStep::To(ImportStage::Move { id, folder }),
        import_step_of(ImportStage::Move { id, folder }, has_feed, ImportEvent::Moved)
            == ImportStep::Settle(id),
{
}

/// What the import asks for is what the present subscription calls for.
pub proof fn law_imports_ask_for_their_subscription(run: ImportRun, r: ImportAction)
    requires
        run.wf(),
        run.wants(r),
    ensures
        run.at == run.plans@.len() <==> r is Done,
        run.at < run.plans@.len() ==> {
            let plan = run.plans@[run.at as int]@;
            &&& run.stage is Folder ==> (r matches ImportAction::FolderId(name) && plan.folder
                == Some(name@))
            &&& run.stage is Find ==> (r matches ImportAction::FindFeed(url) && plan.feed->0.url
                == url@)
            &&& run.stage matches ImportStage::Insert { folder: into } ==> (
            r matches ImportAction::InsertFeed { url, title, folder } && url@ == plan.feed->0.url
                && title@ == plan.feed->0.title && folder == into)
            &&& run.stage matches ImportStage::Current { id, folder } ==> r
                == ImportAction::FeedFolder(id)
            &&& run.stage matches ImportStage::Move { id, folder } ==> r
                == (ImportAction::MoveFeed { id, folder })
        },
{
}

/// An import goes through its subscriptions in order. One with a folder starts
/// with that, one without with its feed; and behind a settled one its feed is
/// known by both names of its stream.
pub proof fn law_imports_go_on(before: ImportRun, after: ImportRun, event: ImportEvent)
    requires
        before.wf(),
        before.at < before.plans@.len(),
        after.follows(before, event),
    ensures
        ({
            let plan = before.plans@[before.at as int];
            let step = import_step_of(before.stage, plan.feed is Some, event);
            &&& after.plans == before.plans
            &&& step is Stay ==> after == before
            &&& step matches ImportStep::To(stage) ==> after.at == before.at && after.stage == stage
                && after.streams == before.streams
            &&& step is Skip ==> after.at == before.at + 1 && after.streams == before.streams
            &&& step matches ImportStep::Settle(id) ==> after.at == before.at + 1 && after.streams@
                == before.streams@.insert(plan@.feed->0.stream, id).insert(
                "feed/"@ + plan@.feed->0.url,
                id,
            )
            &&& after.at > before.at && after.at < after.plans@.len() ==> after.stage == (
            if after.plans@[after.at as int].folder is Some {
                ImportStage::Folder
            } else {
                ImportStage::Find { folder: None }
            })
        }),
{
}

/// An import starts with the first subscription and without any stream.
pub proof fn law_imports_start(run: ImportRun, subs: Seq<Sub>)
    requires
        run.starts(subs),
    ensures
        plan_views(run.plans@) == plans_of(subs),
        run.at == 0,
        run.streams@ == Map::<Seq<char>, i64>::empty(),
        run.plans@.len() > 0 ==> run.stage == (if run.plans@[0].folder is Some {
            ImportStage::Folder
        } else {
            ImportStage::Find { folder: None }
        }),
        run.is_done() <==> run.plans@.len() == 0,
{
}

/// The feeds that the server lacks are pushed in their order, each as often as
/// it is there.
pub proof fn law_feeds_are_pushed_in_order(
    local: Seq<Seq<char>>,
    server: Seq<Seq<char>>,
    url: Seq<char>,
)
    ensures
        local_only(Seq::empty(), server) == Seq::<Seq<char>>::empty(),
        server.contains(url) ==> local_only(local.push(url), server) == local_only(local, server),
        !server.contains(url) ==> local_only(local.push(url), server) == local_only(
            local,
            server,
        ).push(url),
{
    assert(local.push(url).drop_last() =~= local);
}

/// A feed is filed under the folder of the first local feed with its URL.
pub proof fn law_targets_have_their_folder(targets: Seq<FeedTarget>, t: FeedTarget, url: Seq<char>)
    ensures
        target_folder(Seq::empty(), url) is None,
        target_folder(seq![t] + targets, t.url@) == text::view_of(t.folder),
        t.url@ != url ==> target_folder(seq![t] + targets, url) == target_folder(targets, url),
{
    assert((seq![t] + targets)[0] == t);
    assert((seq![t] + targets).drop_first() =~= targets);
}

/// The server is subscribed to the present feed, and the feed is then filed
/// under its local folder.
pub proof fn law_subscribing_names_the_feed(
    run: SubscribeRun,
    session: SessionView,
    r: SubscribeAction,
)
    requires
        run.wf(),
        run.wants(session, r),
    ensures
        run.at == run.urls@.len() <==> r is Done,
        run.at < run.urls@.len() && !run.filing ==> (r matches SubscribeAction::Subscribe(request)
            && request@ == subscribe_request(session, run.urls@[run.at as int]@)),
        run.at < run.urls@.len() && run.filing ==> (r matches SubscribeAction::File(request)
            && request@ == post_request(
            session,
            "subscription/edit"@,
            filing_form(
                session.token,
                "feed/"@ + run.urls@[run.at as int]@,
                Seq::empty(),
                target_folder(run.targets@, run.urls@[run.at as int]@),
            ),
        )),
{
}

/// Subscribing goes through the feeds in order, and a feed is filed exactly
/// where it was subscribed to and is in a folder.
pub proof fn law_subscribing_goes_on(
    before: SubscribeRun,
    after: SubscribeRun,
    ok: bool,
    targets: Vec<FeedTarget>,
    server: Seq<Seq<char>>,
)
    ensures
        before.starts(targets, server) ==> before.at == 0 && !before.filing && text::views(
            before.urls@,
        ) == local_only(target_urls(targets@), server) && before.targets == targets,
        after.follows(before, ok) && before.at < before.urls@.len() ==> {
            let filed = target_folder(before.targets@, before.urls@[before.at as int]@) is Some;
            &&& after.urls == before.urls && after.targets == before.targets
            &&& ok && !before.filing && filed ==> after.at == before.at && after.filing
            &&& !(ok && !before.filing && filed) ==> after.at == before.at + 1 && !after.filing
        },
        before.is_done() <==> before.at == before.urls@.len(),
        target_urls(targets@).len() == targets@.len(),
        forall|i: int|
            0 <= i < targets@.len() ==> #[trigger] target_urls(targets@)[i] == targets@[i].url@,
{
}

/// The server is asked for its recent articles, a thousand of them, and for
/// every article whose id is given.
pub proof fn law_articles_are_asked_for(session: SessionView, ids: Seq<Seq<char>>)
    ensures
        ids_request(session) == get_request(
            session,
            "stream/items/ids?output=json&s=user/-/state/com.google/reading-list&n=1000"@,
        ),
        contents_request(session) == get_request(
            session,
            "stream/contents/user/-/state/com.google/reading-list?output=json&n=1000"@,
        ),
        items_request(session, ids) == post_request(
            session,
            "stream/items/contents"@,
            seq![("T"@, session.token), ("output"@, "json"@)] + Seq::new(
                ids.len(),
                |k: int| ("i"@, ids[k]),
            ),
        ),
{
    assert(id_fields(ids) =~= Seq::new(ids.len(), |k: int| ("i"@, ids[k])));
}

/// An item's URL is its first canonical link, or its first alternate one where
/// it has no canonical link at all, trimmed, and none where that is blank.
pub proof fn law_items_have_their_link(item: Item)
    ensures
        item.canonical@.len() > 0 && text::trimmed(item.canonical@[0]@).len() > 0 ==> url_of(item)
            == Some(text::trimmed(item.canonical@[0]@)),
        item.canonical@.len() > 0 && text::trimmed(item.canonical@[0]@).len() == 0 ==> url_of(item)
            is None,
        item.canonical@.len() == 0 && item.alternate@.len() > 0 && text::trimmed(
            item.alternate@[0]@,
        ).len() > 0 ==> url_of(item) == Some(text::trimmed(item.alternate@[0]@)),
        item.canonical@.len() == 0 && item.alternate@.len() > 0 && text::trimmed(
            item.alternate@[0]@,
        ).len() == 0 ==> url_of(item) is None,
        item.canonical@.len() == 0 && item.alternate@.len() == 0 ==> url_of(item) is None,
{
}

/// An item's state on the server is what its categories say, its feed is that
/// of the stream it comes from, and its date is the one it has, where that can be
/// written.
pub proof fn law_items_are_planned(plan: ItemPlan, item: Item, streams: Map<Seq<char>, i64>)
    requires
        plans_item(plan, item, streams),
    ensures
        plan.item == item,
        text::view_of(plan.url) == url_of(item),
        plan.read <==> exists|i: int|
            0 <= i < item.categories@.len() && says_tag(
                #[trigger] item.categories@[i]@,
                "user/-/state/com.google/read"@,
            ),
        plan.starred <==> exists|i: int|
            0 <= i < item.categories@.len() && says_tag(
                #[trigger] item.categories@[i]@,
                "user/-/state/com.google/starred"@,
            ),
        item.origin is None ==> plan.feed is None,
        item.origin matches Some(stream) ==> plan.feed == (if streams.contains_key(stream@) {
            Some(streams[stream@])
        } else {
            None
        }),
        date_of(item) == (if item.published is Some && rfc3339_utc(item.published->0 as int, 0)
            is Some {
            item.published
        } else {
            None
        }),
{
}

/// Every item that can be matched or made is reconciled, in order.
pub proof fn law_every_item_is_planned(
    plans: Seq<ItemPlan>,
    plan: ItemPlan,
    items: Seq<Item>,
    item: Item,
    streams: Map<Seq<char>, i64>,
)
    ensures
        plans_items(plans, Seq::empty(), streams) <==> plans.len() == 0,
        url_of(item) is None && item_feed(item, streams) is None ==> (plans_items(
            plans,
            items.push(item),
            streams,
        ) <==> plans_items(plans, items, streams)),
        url_of(item) is Some || item_feed(item, streams) is Some ==> (plans_items(
            plans.push(plan),
            items.push(item),
            streams,
        ) <==> plans_item(plan, item, streams) && plans_items(plans, items, streams)),
        url_of(item) is Some || item_feed(item, streams) is Some ==> !plans_items(
            Seq::empty(),
            items.push(item),
            streams,
        ),
{
    assert(items.push(item).drop_last() =~= items);
    assert(plans.push(plan).drop_last() =~= plans);
}

/// An item is reconciled by its steps: the article with its URL is looked for,
/// then its feed's article with its id, and only where there is neither it is
/// made; the article then gets the item's id and state, and its queued changes
/// are dropped.
pub proof fn law_how_items_are_reconciled(
    feed: bool,
    date: bool,
    read: bool,
    article: i64,
    at: Instant,
    published: Option<Instant>,
    new: bool,
)
    ensures
        item_step_of(ItemStage::ByUrl, feed, date, read, ItemEvent::Found(Some(article)))
            == ItemStep::To(ItemStage::RemoteId { article }),
        item_step_of(ItemStage::ByUrl, true, date, read, ItemEvent::Found(None)) == ItemStep::To(
            ItemStage::ByGuid,
        ),
        item_step_of(ItemStage::ByUrl, false, date, read, ItemEvent::Found(None)) == ItemStep::Skip,
        item_step_of(ItemStage::ByGuid, feed, date, read, ItemEvent::Found(Some(article)))
            == ItemStep::To(ItemStage::RemoteId { article }),
        item_step_of(ItemStage::ByGuid, feed, true, read, ItemEvent::Found(None)) == ItemStep::To(
            ItemStage::Date,
        ),
        item_step_of(ItemStage::ByGuid, feed, false, read, ItemEvent::Found(None)) == ItemStep::To(
            ItemStage::Insert { published: None },
        ),
        item_step_of(ItemStage::Date, feed, date, read, ItemEvent::Dated(at)) == ItemStep::To(
            ItemStage::Insert { published: Some(at) },
        ),
        item_step_of(ItemStage::Insert { published }, feed, date, false, ItemEvent::Stored(true))
            == ItemStep::Count(ItemStage::Inserted),
        item_step_of(ItemStage::Insert { published }, feed, date, true, ItemEvent::Stored(new))
            == ItemStep::To(ItemStage::Inserted),
        item_step_of(ItemStage::Insert { published }, feed, date, read, ItemEvent::Stored(false))
            == ItemStep::To(ItemStage::Inserted),
        item_step_of(ItemStage::Inserted, feed, date, read, ItemEvent::Found(Some(article)))
            == ItemStep::To(ItemStage::RemoteId { article }),
        item_step_of(ItemStage::Inserted, feed, date, read, ItemEvent::Found(None))
            == ItemStep::Skip,
        item_step_of(ItemStage::RemoteId { article }, feed, date, read, ItemEvent::Done)
            == ItemStep::To(ItemStage::State { article }),
        item_step_of(ItemStage::State { article }, feed, date, read, ItemEvent::Done)
            == ItemStep::To(ItemStage::Clear { article }),
        item_step_of(ItemStage::Clear { article }, feed, date, read, ItemEvent::Done)
            == ItemStep::Settle,
{
}

/// What the reconciliation asks for is what the present item says: it is looked
/// for by its own URL and id, made as its own article, and its own state is what
/// overwrites the local one.
pub proof fn law_reconciliation_asks_for_its_item(run: ItemRun, r: ItemAction)
    requires
        run.wf(),
        run.wants(r),
    ensures
        run.at == run.plans@.len() ==> r == ItemAction::Done(run.inserted),
        run.at < run.plans@.len() ==> {
            let plan = run.plans@[run.at as int];
            &&& run.stage is ByUrl ==> (r matches ItemAction::ArticleByUrl(url) && Some(url@)
                == text::view_of(plan.url))
            &&& run.stage is ByGuid || run.stage is Inserted ==> (
            r matches ItemAction::ArticleByGuid { feed, guid } && Some(feed) == plan.feed && guid@
                == plan.item.id@)
            &&& run.stage is Date ==> (r matches ItemAction::SetRight(seconds) && Some(seconds)
                == plan.item.published)
            &&& run.stage matches ItemStage::Insert { published } ==> (
            r matches ItemAction::Store { feed, content } && Some(feed) == plan.feed && content@
                == article_of(plan.item, text::view_of(plan.url), published))
            &&& run.stage matches ItemStage::RemoteId { article: a } ==> (
            r matches ItemAction::SetRemoteId { article, remote_id } && article == a && remote_id@
                == plan.item.id@)
            &&& run.stage matches ItemStage::State { article: a } ==> (
            r matches ItemAction::SetState { article, read, starred } && article == a && read
                == plan.read && starred == plan.starred)
            &&& run.stage matches ItemStage::Clear { article } ==> r == ItemAction::ClearQueue(
                article,
            )
        },
{
}

/// The reconciliation goes through its items in order: one with a URL starts
/// with that, one without with its feed and id, and what was counted stays so.
pub proof fn law_reconciliation_goes_on(before: ItemRun, after: ItemRun, event: ItemEvent)
    requires
        before.wf(),
        before.at < before.plans@.len(),
        after.follows(before, event),
    ensures
        ({
            let plan = before.plans@[before.at as int];
            let step = item_step_of(
                before.stage,
                plan.feed is Some,
                date_of(plan.item) is Some,
                plan.read,
                event,
            );
            &&& after.plans == before.plans
            &&& step is Stay ==> after == before
            &&& step matches ItemStep::To(stage) ==> after.at == before.at && after.stage == stage
            &&& step matches ItemStep::Count(stage) ==> after.at == before.at && after.stage == stage
            &&& step is Skip || step is Settle ==> after.at == before.at + 1
            &&& after.inserted == before.inserted + (if step is Count {
                1int
            } else {
                0
            })
            &&& after.reconciled == before.reconciled + (if step is Settle {
                1int
            } else {
                0
            })
            &&& after.at > before.at && after.at < after.plans@.len() ==> after.stage == (
            if after.plans@[after.at as int].url is Some {
                ItemStage::ByUrl
            } else {
                ItemStage::ByGuid
            })
        }),
{
}

/// The reconciliation starts with the first item and with nothing counted.
pub proof fn law_reconciliation_starts(
    run: ItemRun,
    items: Seq<Item>,
    streams: Map<Seq<char>, i64>,
)
    requires
        run.starts(items, streams),
    ensures
        plans_items(run.plans@, items, streams),
        run.at == 0,
        run.inserted == 0,
        run.reconciled == 0,
        run.plans@.len() > 0 ==> run.stage == (if run.plans@[0].url is Some {
            ItemStage::ByUrl
        } else {
            ItemStage::ByGuid
        }),
        run.is_done() <==> run.plans@.len() == 0,
{
}

} // verus!
