//! Feed refresh: which sources one run touches, what each fetch leads to, and
//! the steps of a run in their order.

use vstd::prelude::*;
use crate::text;

verus! {

/// Seconds that the poll of one newsletter mailbox may take.
pub const NEWSLETTER_POLL_TIMEOUT_SECS: u64 = 90;

/// How many newest messages of a mailbox are fetched.
pub const NEWSLETTER_FETCH_LIMIT: usize = 50;

/// How many mailboxes are polled at once.
pub const NEWSLETTER_CONCURRENCY: usize = 4;

/// How many articles are stored under one hold of the store.
pub const INGEST_CHUNK: usize = 64;

/// Seconds between two looks for due feeds.
pub const SCHEDULER_TICK_SECS: u64 = 60;

/// Seconds from the start of the app to the first look for due feeds.
pub const SCHEDULER_DELAY_SECS: u64 = 8;

/// Which feeds a refresh touches.
#[derive(Clone, Copy, Debug, PartialEq, Eq, Structural)]
pub enum RefreshScope {
    /// Every feed and newsletter.
    All,
    /// Only sources whose interval has elapsed.
    Due,
}

/// What a refresh reports while it runs.
#[derive(Debug, PartialEq, Eq)]
pub enum RefreshProgress {
    Started { total: usize },
    FeedDone { feed_id: i64, new_articles: usize, error: Option<String> },
    Finished { new_articles: usize },
}

// ─────────────────────────── before a run ───────────────────────────

/// How a refresh enters while another may be running.
#[derive(Clone, Copy, Debug, PartialEq, Eq, Structural)]
pub enum Admission {
    /// It waits for the other to end, and then runs.
    Wait,
    /// It runs.
    Run,
    /// It does nothing.
    Skip,
}

/// How a refresh enters: only one runs at a time, and a caller that must not
/// wait does nothing while another runs.
pub fn admission(wait_if_busy: bool, busy: bool) -> (r: Admission)
    ensures
        r == (if wait_if_busy {
            Admission::Wait
        } else if busy {
            Admission::Skip
        } else {
            Admission::Run
        }),
{
    if wait_if_busy {
        Admission::Wait
    } else if busy {
        Admission::Skip
    } else {
        Admission::Run
    }
}

/// The refresh interval in minutes that a setting asks for: 30 unless it is
/// an integer of at least 5, and never above `off`, which means never.
pub open spec fn interval_of(setting: Option<Seq<char>>, off: i64) -> i64 {
    match setting {
        Some(s) => match text::parsed_i64(s) {
            Some(minutes) => if minutes < 5 {
                30
            } else if minutes < off {
                minutes
            } else {
                off
            },
            None => 30,
        },
        None => 30,
    }
}

/// The refresh interval in minutes of feeds without one of their own.
pub fn refresh_interval(setting: Option<&str>, off: i64) -> (r: i64)
    ensures
        r == interval_of(text::str_of(setting), off),
{
    match setting {
        Some(s) => match text::parse_i64(s) {
            Some(minutes) => if minutes < 5 {
                30
            } else if minutes < off {
                minutes
            } else {
                off
            },
            None => 30,
        },
        None => 30,
    }
}

/// The integer that a setting gives, or else a default.
pub open spec fn integer_or(setting: Option<Seq<char>>, default: i64) -> i64 {
    match setting {
        Some(s) => match text::parsed_i64(s) {
            Some(n) => n,
            None => default,
        },
        None => default,
    }
}

fn read_integer(setting: Option<&str>, default: i64) -> (r: i64)
    ensures
        r == integer_or(text::str_of(setting), default),
{
    match setting {
        Some(s) => match text::parse_i64(s) {
            Some(n) => n,
            None => default,
        },
        None => default,
    }
}

/// How many feeds are fetched at once: what the setting says, 6 where it is no
/// integer, and always from 1 to 16.
pub fn concurrency_of(setting: Option<&str>) -> (r: usize)
    ensures
        r == (if integer_or(text::str_of(setting), 6) < 1 {
            1int
        } else if integer_or(text::str_of(setting), 6) > 16 {
            16
        } else {
            integer_or(text::str_of(setting), 6) as int
        }),
{
    let n: i64 = read_integer(setting, 6);
    if n < 1 {
        1
    } else if n > 16 {
        16
    } else {
        n as usize
    }
}

// ─────────────────────────── one source ───────────────────────────

/// How the fetch of one feed ended.
#[derive(Debug, PartialEq, Eq)]
pub enum FetchEnd {
    /// The feed is as it was.
    NotModified,
    /// The feed was fetched and read.
    Parsed,
    /// What was fetched is no feed; the parser's words.
    Unreadable(String),
    /// The feed could not be fetched; the client's words.
    Failed(String),
}

/// What became of one feed.
#[derive(Debug, PartialEq, Eq)]
pub enum FeedOutcome {
    NotModified,
    Updated,
    Failed(String),
}

/// What became of one feed, by how its fetch ended.
pub fn fetch_one(end: FetchEnd) -> (r: FeedOutcome)
    ensures
        r == (match end {
            FetchEnd::NotModified => FeedOutcome::NotModified,
            FetchEnd::Parsed => FeedOutcome::Updated,
            FetchEnd::Unreadable(e) => FeedOutcome::Failed(e),
            FetchEnd::Failed(e) => FeedOutcome::Failed(e),
        }),
{
    match end {
        FetchEnd::NotModified => FeedOutcome::NotModified,
        FetchEnd::Parsed => FeedOutcome::Updated,
        FetchEnd::Unreadable(e) => FeedOutcome::Failed(e),
        FetchEnd::Failed(e) => FeedOutcome::Failed(e),
    }
}

/// A change of the store behind a fetch. None that fails stops the refresh.
#[derive(Debug, PartialEq, Eq)]
pub enum FeedStep {
    /// The feed was looked at, and has no error.
    Touch,
    /// The feed has this error.
    SetError(String),
    /// The feed's articles are stored.
    Ingest,
    /// The feed's title, site, description and icon are stored.
    UpdateMeta,
    /// The feed's cache validators are stored, and its error is cleared.
    SetFetchState,
    /// A feed of the generic kind gets the kind that it turned out to be of.
    RefineSourceType,
}

/// The changes of the store behind the fetch of one feed, in order.
pub open spec fn steps_of(outcome: FeedOutcome) -> Seq<FeedStep> {
    match outcome {
        FeedOutcome::NotModified => seq![FeedStep::Touch],
        FeedOutcome::Failed(e) => seq![FeedStep::SetError(e)],
        FeedOutcome::Updated => seq![
            FeedStep::Ingest,
            FeedStep::UpdateMeta,
            FeedStep::SetFetchState,
            FeedStep::RefineSourceType,
        ],
    }
}

/// The changes of the store behind the fetch of one feed.
pub fn feed_steps(outcome: &FeedOutcome) -> (r: Vec<FeedStep>)
    ensures
        r@ == steps_of(*outcome),
{
    let mut steps: Vec<FeedStep> = Vec::new();
    match outcome {
        FeedOutcome::NotModified => {
            steps.push(FeedStep::Touch);
        },
        FeedOutcome::Failed(e) => {
            steps.push(FeedStep::SetError(e.clone()));
        },
        FeedOutcome::Updated => {
            steps.push(FeedStep::Ingest);
            steps.push(FeedStep::UpdateMeta);
            steps.push(FeedStep::SetFetchState);
            steps.push(FeedStep::RefineSourceType);
        },
    }
    assert(steps@ =~= steps_of(*outcome));
    steps
}

/// The error that is reported of a feed.
pub open spec fn error_of(outcome: FeedOutcome) -> Option<Seq<char>> {
    match outcome {
        FeedOutcome::Failed(e) => Some(e@),
        _ => None,
    }
}

/// The error that is reported of a feed.
pub fn feed_error(outcome: FeedOutcome) -> (r: Option<String>)
    ensures
        text::view_of(r) == error_of(outcome),
{
    match outcome {
        FeedOutcome::Failed(e) => Some(e),
        _ => None,
    }
}

/// How the poll of one mailbox ended.
#[derive(Debug, PartialEq, Eq)]
pub enum PollEnd {
    /// So many messages came.
    Fetched(usize),
    /// The mailbox could not be read; its words.
    Failed(String),
    /// The poll broke down; the words for that.
    Crashed(String),
    /// The poll took too long.
    TimedOut,
}

/// What a mailbox's failed poll is recorded as; `None` for one that went
/// through.
pub open spec fn poll_error_of(end: PollEnd) -> Option<Seq<char>> {
    match end {
        PollEnd::Fetched(_) => None,
        PollEnd::Failed(e) => Some(e@),
        PollEnd::Crashed(e) => Some(e@),
        PollEnd::TimedOut => Some(
            "IMAP poll timed out after "@ + text::decimal(90) + "s"@,
        ),
    }
}

/// What a mailbox's failed poll is recorded as.
pub fn poll_error(end: &PollEnd) -> (r: Option<String>)
    ensures
        text::view_of(r) == poll_error_of(*end),
{
    match end {
        PollEnd::Fetched(_) => None,
        PollEnd::Failed(e) => Some(e.clone()),
        PollEnd::Crashed(e) => Some(e.clone()),
        PollEnd::TimedOut => {
            let seconds = text::natural(NEWSLETTER_POLL_TIMEOUT_SECS);
            Some(text::cat3("IMAP poll timed out after ", seconds.as_str(), "s"))
        },
    }
}

/// The changes of the store behind the poll of one mailbox: a failure is
/// recorded with its feed and stops no other.
pub fn mailbox_steps(end: &PollEnd) -> (r: Vec<FeedStep>)
    ensures
        match poll_error_of(*end) {
            None => r@ == seq![FeedStep::Ingest, FeedStep::Touch],
            Some(e) => r@.len() == 1 && (r@[0] matches FeedStep::SetError(said) && said@ == e),
        },
{
    let mut steps: Vec<FeedStep> = Vec::new();
    match poll_error(end) {
        None => {
            steps.push(FeedStep::Ingest);
            steps.push(FeedStep::Touch);
            assert(steps@ =~= seq![FeedStep::Ingest, FeedStep::Touch]);
        },
        Some(e) => {
            steps.push(FeedStep::SetError(e));
        },
    }
    steps
}

// ─────────────────────────── storing articles ───────────────────────────

/// How many of the stored articles are new: those the store says so of.
pub open spec fn new_among(stored: Seq<Result<bool, String>>) -> nat
    decreases stored.len(),
{
    if stored.len() == 0 {
        0
    } else {
        new_among(stored.drop_last()) + (if stored.last() == Ok::<bool, String>(true) {
            1nat
        } else {
            0nat
        })
    }
}

/// Where each hold of the store ends: behind every so many articles, and
/// behind the last.
pub open spec fn chunk_end(start: int, len: int) -> int {
    if start + 64 < len {
        start + 64
    } else {
        len
    }
}

/// Storing the articles of one feed, under several short holds of the store.
#[derive(Debug, PartialEq, Eq)]
pub struct IngestRun {
    pub len: usize,
    pub done: usize,
    pub new_count: usize,
}

impl IngestRun {
    /// What holds of every such run.
    pub open spec fn wf(self) -> bool {
        self.new_count <= self.done <= self.len
    }

    /// Storing so many articles.
    pub fn new(len: usize) -> (r: IngestRun)
        ensures
            r.wf(),
            r == (IngestRun { len, done: 0, new_count: 0 }),
    {
        IngestRun { len, done: 0, new_count: 0 }
    }

    /// The articles to store under the next hold, from the first to before
    /// the second; `None` where none is left.
    pub fn next_chunk(&self) -> (r: Option<(usize, usize)>)
        requires
            self.wf(),
        ensures
            r == (if self.done < self.len {
                Some((self.done, chunk_end(self.done as int, self.len as int) as usize))
            } else {
                None
            }),
            r matches Some(chunk) ==> chunk.0 < chunk.1 <= self.len && chunk.1 - chunk.0 <= 64,
    {
        if self.done < self.len {
            if self.len - self.done > INGEST_CHUNK {
                Some((self.done, self.done + INGEST_CHUNK))
            } else {
                Some((self.done, self.len))
            }
        } else {
            None
        }
    }

    /// Goes on behind one hold, in which the articles were stored so: an
    /// article that could not be stored is passed over.
    pub fn stored(&mut self, results: &Vec<Result<bool, String>>)
        requires
            old(self).wf(),
            old(self).done + results@.len() <= old(self).len,
        ensures
            final(self).wf(),
            final(self).len == old(self).len,
            final(self).done == old(self).done + results@.len(),
            final(self).new_count == old(self).new_count + new_among(results@),
    {
        let mut count: usize = 0;
        assert(results@.take(0) =~= Seq::<Result<bool, String>>::empty());
        for i in 0..results.len()
            invariant
                count <= i,
                count == new_among(results@.take(i as int)),
        {
            assert(results@.take(i + 1).drop_last() =~= results@.take(i as int));
            match &results[i] {
                Ok(new) => {
                    if *new {
                        count = count + 1;
                    }
                },
                Err(_) => {},
            }
        }
        assert(results@.take(results@.len() as int) =~= results@);
        self.done = self.done + results.len();
        self.new_count = self.new_count + count;
    }
}

// ─────────────────────────── retention ───────────────────────────

/// The days that read articles are kept, where a cleanup is due: a finite
/// window is set, and the last cleanup is a day ago.
pub open spec fn retention_of(setting: Option<Seq<char>>, now: int, last_run: int) -> Option<i64> {
    match setting {
        Some(s) => match text::parsed_i64(s) {
            Some(days) => if now - last_run >= 86_400 {
                Some(days)
            } else {
                None
            },
            None => None,
        },
        None => None,
    }
}

/// The days that read articles are kept, where a cleanup is due. Times are in
/// seconds.
pub fn retention_due(setting: Option<&str>, now: i64, last_run: i64) -> (r: Option<i64>)
    requires
        setting matches Some(s) && text::parsed_i64(s@) is Some ==> i64::MIN <= now - last_run
            <= i64::MAX,
    ensures
        r == retention_of(text::str_of(setting), now as int, last_run as int),
{
    match setting {
        Some(s) => match text::parse_i64(s) {
            Some(days) => if now - last_run >= 86_400 {
                Some(days)
            } else {
                None
            },
            None => None,
        },
        None => None,
    }
}

/// The time of the last cleanup that a setting gives: the epoch where it is no
/// integer.
pub fn last_cleanup(setting: Option<&str>) -> (r: i64)
    ensures
        r == integer_or(text::str_of(setting), 0),
{
    read_integer(setting, 0)
}

/// What is stored as the time of the last cleanup, behind one at `now`: only
/// one that went through counts.
pub fn retention_stamp(now: i64, cleaned: bool) -> (r: Option<String>)
    ensures
        text::view_of(r) == (if cleaned {
            Some(text::numeral(now as int))
        } else {
            None
        }),
{
    if cleaned {
        Some(text::integer(now))
    } else {
        None
    }
}

/// A cleanup that went through is the last for a day: with its time stored,
/// none is due until a day has passed, whatever the window.
pub proof fn law_one_cleanup_a_day(setting: Option<Seq<char>>, cleaned_at: i64, now: i64)
    requires
        now - cleaned_at < 86_400,
    ensures
        integer_or(Some(text::numeral(cleaned_at as int)), 0) == cleaned_at,
        retention_of(setting, now as int, cleaned_at as int) is None,
{
    text::law_numeral_read_back(cleaned_at);
}

// ─────────────────────────── the course of a run ───────────────────────────

/// Where a refresh stands.
#[derive(Clone, Copy, Debug, PartialEq, Eq, Structural)]
pub enum RefreshStage {
    /// Nothing is due: the start and the end are reported.
    Idle,
    IdleEnd,
    /// The start is reported.
    Begin,
    /// Fetches are awaited.
    Feeds { left: usize },
    /// A fetch is reported.
    Report { left: usize, feed_id: i64, new_articles: usize },
    /// The newsletters are polled.
    Newsletters,
    /// Old articles are cleaned up.
    Retention,
    /// The end is reported.
    End,
    /// The app is told of new articles.
    Announce,
    /// The user is told of new articles.
    Notify,
    /// A sync runs where a server is connected.
    Sync,
    /// The app is told that the sync may have changed things.
    AnnounceSync,
    /// The badge is brought up to date.
    Badge,
    /// The tray is brought up to date.
    Tray,
    /// Nothing is left.
    Done,
}

/// How a sync inside a refresh ended.
#[derive(Clone, Copy, Debug, PartialEq, Eq, Structural)]
pub enum SyncEnd {
    Ran,
    NotConnected,
    Failed,
}

/// What a refresh is told.
#[derive(Debug, PartialEq, Eq)]
pub enum RefreshEvent {
    /// What was asked for is done.
    Done,
    /// The task of a fetch was lost.
    Lost,
    /// The fetch of this feed was dealt with: so many new articles, or this
    /// error.
    Feed { feed_id: i64, new_articles: usize, error: Option<String> },
    /// The newsletters brought so many new articles.
    Polled(usize),
    /// The sync ended so.
    Synced(SyncEnd),
}

/// What a refresh needs next.
#[derive(Debug, PartialEq, Eq)]
pub enum RefreshAction {
    /// This progress reported, where anyone listens.
    Report(RefreshProgress),
    /// The next fetch that ends, dealt with by its steps.
    AwaitFeed,
    /// The newsletters polled.
    PollNewsletters,
    /// Old articles cleaned up, where that is due.
    Retain,
    /// The app told of so many new articles.
    Emit(usize),
    /// The user told of so many new articles.
    Notify(usize),
    /// A sync, where a server is connected.
    Sync,
    /// The badge brought up to date.
    UpdateBadge,
    /// The tray brought up to date.
    RefreshTray,
    /// Nothing: so many new articles came.
    Done(usize),
}

/// The stage of awaiting so many fetches.
pub open spec fn awaiting(left: usize) -> RefreshStage {
    if left > 0 {
        RefreshStage::Feeds { left }
    } else {
        RefreshStage::Newsletters
    }
}

/// What an event leads to.
pub open spec fn refresh_step_of(
    stage: RefreshStage,
    feeds: usize,
    event: RefreshEvent,
) -> RefreshStage {
    match (stage, event) {
        (RefreshStage::Idle, RefreshEvent::Done) => RefreshStage::IdleEnd,
        (RefreshStage::IdleEnd, RefreshEvent::Done) => RefreshStage::Done,
        (RefreshStage::Begin, RefreshEvent::Done) => awaiting(feeds),
        (RefreshStage::Feeds { left }, RefreshEvent::Lost) => awaiting((left - 1) as usize),
        (
            RefreshStage::Feeds { left },
            RefreshEvent::Feed { feed_id, new_articles, error },
        ) => RefreshStage::Report { left: (left - 1) as usize, feed_id, new_articles },
        (RefreshStage::Report { left, .. }, RefreshEvent::Done) => awaiting(left),
        (RefreshStage::Newsletters, RefreshEvent::Polled(_)) => RefreshStage::Retention,
        (RefreshStage::Retention, RefreshEvent::Done) => RefreshStage::End,
        (RefreshStage::End, RefreshEvent::Done) => RefreshStage::Announce,
        (RefreshStage::Announce, RefreshEvent::Done) => RefreshStage::Notify,
        (RefreshStage::Notify, RefreshEvent::Done) => RefreshStage::Sync,
        (RefreshStage::Sync, RefreshEvent::Synced(end)) => if end == SyncEnd::Ran {
            RefreshStage::AnnounceSync
        } else {
            RefreshStage::Badge
        },
        (RefreshStage::AnnounceSync, RefreshEvent::Done) => RefreshStage::Badge,
        (RefreshStage::Badge, RefreshEvent::Done) => RefreshStage::Tray,
        (RefreshStage::Tray, RefreshEvent::Done) => RefreshStage::Done,
        _ => stage,
    }
}

/// How many new articles an event adds.
pub open spec fn added_by(stage: RefreshStage, event: RefreshEvent) -> nat {
    match (stage, event) {
        (
            RefreshStage::Feeds { .. },
            RefreshEvent::Feed { feed_id, new_articles, error },
        ) => new_articles as nat,
        (RefreshStage::Newsletters, RefreshEvent::Polled(n)) => n as nat,
        _ => 0,
    }
}

/// One refresh.
#[derive(Debug, PartialEq, Eq)]
pub struct RefreshRun {
    pub feeds: usize,
    pub total_new: usize,
    pub stage: RefreshStage,
    pub error: Option<String>,
}

/// What decides how a refresh goes on: where it stands, how many new articles
/// came so far, and the error of the fetch that is reported.
pub struct RefreshState {
    pub stage: RefreshStage,
    pub total: nat,
    pub error: Option<String>,
}

/// The state that an event leads to.
pub open spec fn state_after(state: RefreshState, feeds: usize, event: RefreshEvent) -> RefreshState {
    RefreshState {
        stage: refresh_step_of(state.stage, feeds, event),
        total: state.total + added_by(state.stage, event),
        error: match (state.stage, event) {
            (
                RefreshStage::Feeds { .. },
                RefreshEvent::Feed { feed_id, new_articles, error },
            ) => error,
            _ => state.error,
        },
    }
}

/// What a refresh of so many feeds needs next.
pub open spec fn action_of(state: RefreshState, feeds: usize) -> RefreshAction {
    match state.stage {
        RefreshStage::Idle => RefreshAction::Report(RefreshProgress::Started { total: 0 }),
        RefreshStage::IdleEnd => RefreshAction::Report(
            RefreshProgress::Finished { new_articles: 0 },
        ),
        RefreshStage::Begin => RefreshAction::Report(RefreshProgress::Started { total: feeds }),
        RefreshStage::Feeds { .. } => RefreshAction::AwaitFeed,
        RefreshStage::Report { left: _, feed_id, new_articles } => RefreshAction::Report(
            RefreshProgress::FeedDone { feed_id, new_articles, error: state.error },
        ),
        RefreshStage::Newsletters => RefreshAction::PollNewsletters,
        RefreshStage::Retention => RefreshAction::Retain,
        RefreshStage::End => RefreshAction::Report(
            RefreshProgress::Finished { new_articles: state.total as usize },
        ),
        RefreshStage::Announce => RefreshAction::Emit(state.total as usize),
        RefreshStage::Notify => RefreshAction::Notify(state.total as usize),
        RefreshStage::Sync => RefreshAction::Sync,
        RefreshStage::AnnounceSync => RefreshAction::Emit(0),
        RefreshStage::Badge => RefreshAction::UpdateBadge,
        RefreshStage::Tray => RefreshAction::RefreshTray,
        RefreshStage::Done => RefreshAction::Done(state.total as usize),
    }
}

/// Where a refresh of so many feeds and newsletters starts: a look for due
/// sources that finds none is idle, a full refresh never is.
pub open spec fn start_of(scope: RefreshScope, feeds: usize, newsletters: usize) -> RefreshStage {
    if scope == RefreshScope::Due && feeds == 0 && newsletters == 0 {
        RefreshStage::Idle
    } else {
        RefreshStage::Begin
    }
}

fn await_feeds(left: usize) -> (r: RefreshStage)
    ensures
        r == awaiting(left),
{
    if left > 0 {
        RefreshStage::Feeds { left }
    } else {
        RefreshStage::Newsletters
    }
}

impl RefreshRun {
    /// What holds of every refresh: a fetch is awaited only where one is left.
    pub open spec fn wf(self) -> bool {
        self.stage matches RefreshStage::Feeds { left } ==> left > 0
    }

    /// What decides how the refresh goes on.
    pub open spec fn state(self) -> RefreshState {
        RefreshState { stage: self.stage, total: self.total_new as nat, error: self.error }
    }

    /// A refresh of so many feeds and newsletters.
    pub fn new(scope: RefreshScope, feeds: usize, newsletters: usize) -> (r: RefreshRun)
        ensures
            r.wf(),
            r.feeds == feeds,
            r.total_new == 0,
            r.stage == start_of(scope, feeds, newsletters),
            r.error is None,
    {
        let idle = match scope {
            RefreshScope::All => false,
            RefreshScope::Due => feeds == 0 && newsletters == 0,
        };
        let stage = if idle {
            RefreshStage::Idle
        } else {
            RefreshStage::Begin
        };
        RefreshRun { feeds, total_new: 0, stage, error: None }
    }

    /// The refresh that is skipped because another one is running: it reports
    /// an empty run and ends.
    pub fn skipped() -> (r: RefreshRun)
        ensures
            r.wf(),
            r.feeds == 0,
            r.total_new == 0,
            r.stage == RefreshStage::Idle,
            r.error is None,
    {
        RefreshRun { feeds: 0, total_new: 0, stage: RefreshStage::Idle, error: None }
    }

    /// What the refresh needs next.
    pub fn action(&self) -> (r: RefreshAction)
        ensures
            r == action_of(self.state(), self.feeds),
    {
        match self.stage {
            RefreshStage::Idle => RefreshAction::Report(RefreshProgress::Started { total: 0 }),
            RefreshStage::IdleEnd => RefreshAction::Report(
                RefreshProgress::Finished { new_articles: 0 },
            ),
            RefreshStage::Begin => RefreshAction::Report(
                RefreshProgress::Started { total: self.feeds },
            ),
            RefreshStage::Feeds { .. } => RefreshAction::AwaitFeed,
            RefreshStage::Report { left: _, feed_id, new_articles } => {
                let error = match &self.error {
                    Some(e) => Some(e.clone()),
                    None => None,
                };
                RefreshAction::Report(RefreshProgress::FeedDone { feed_id, new_articles, error })
            },
            RefreshStage::Newsletters => RefreshAction::PollNewsletters,
            RefreshStage::Retention => RefreshAction::Retain,
            RefreshStage::End => RefreshAction::Report(
                RefreshProgress::Finished { new_articles: self.total_new },
            ),
            RefreshStage::Announce => RefreshAction::Emit(self.total_new),
            RefreshStage::Notify => RefreshAction::Notify(self.total_new),
            RefreshStage::Sync => RefreshAction::Sync,
            RefreshStage::AnnounceSync => RefreshAction::Emit(0),
            RefreshStage::Badge => RefreshAction::UpdateBadge,
            RefreshStage::Tray => RefreshAction::RefreshTray,
            RefreshStage::Done => RefreshAction::Done(self.total_new),
        }
    }

    /// Goes on behind the answer to the pending action. An event that answers
    /// another question changes nothing.
    pub fn answer(&mut self, event: RefreshEvent)
        requires
            old(self).wf(),
            old(self).total_new + added_by(old(self).stage, event) <= usize::MAX,
        ensures
            final(self).wf(),
            final(self).feeds == old(self).feeds,
            final(self).state() == state_after(old(self).state(), old(self).feeds, event),
    {
        match (self.stage, event) {
            (RefreshStage::Idle, RefreshEvent::Done) => {
                self.stage = RefreshStage::IdleEnd;
            },
            (RefreshStage::IdleEnd, RefreshEvent::Done) => {
                self.stage = RefreshStage::Done;
            },
            (RefreshStage::Begin, RefreshEvent::Done) => {
                self.stage = await_feeds(self.feeds);
            },
            (RefreshStage::Feeds { left }, RefreshEvent::Lost) => {
                self.stage = await_feeds(left - 1);
            },
            (
                RefreshStage::Feeds { left },
                RefreshEvent::Feed { feed_id, new_articles, error },
            ) => {
                self.stage = RefreshStage::Report { left: left - 1, feed_id, new_articles };
                self.total_new = self.total_new + new_articles;
                self.error = error;
            },
            (RefreshStage::Report { left, .. }, RefreshEvent::Done) => {
                self.stage = await_feeds(left);
            },
            (RefreshStage::Newsletters, RefreshEvent::Polled(n)) => {
                self.stage = RefreshStage::Retention;
                self.total_new = self.total_new + n;
            },
            (RefreshStage::Retention, RefreshEvent::Done) => {
                self.stage = RefreshStage::End;
            },
            (RefreshStage::End, RefreshEvent::Done) => {
                self.stage = RefreshStage::Announce;
            },
            (RefreshStage::Announce, RefreshEvent::Done) => {
                self.stage = RefreshStage::Notify;
            },
            (RefreshStage::Notify, RefreshEvent::Done) => {
                self.stage = RefreshStage::Sync;
            },
            (RefreshStage::Sync, RefreshEvent::Synced(end)) => {
                self.stage = match end {
                    SyncEnd::Ran => RefreshStage::AnnounceSync,
                    SyncEnd::NotConnected => RefreshStage::Badge,
                    SyncEnd::Failed => RefreshStage::Badge,
                };
            },
            (RefreshStage::AnnounceSync, RefreshEvent::Done) => {
                self.stage = RefreshStage::Badge;
            },
            (RefreshStage::Badge, RefreshEvent::Done) => {
                self.stage = RefreshStage::Tray;
            },
            (RefreshStage::Tray, RefreshEvent::Done) => {
                self.stage = RefreshStage::Done;
            },
            _ => {},
        }
    }
}

// ─────────────────────────── polling newsletters ───────────────────────────

/// The new articles that several mailboxes brought, `None` standing for one
/// whose task was lost or whose poll failed.
pub open spec fn polled_total(counts: Seq<Option<usize>>) -> nat
    decreases counts.len(),
{
    if counts.len() == 0 {
        0
    } else {
        polled_total(counts.drop_last()) + (match counts.last() {
            Some(n) => n as nat,
            None => 0nat,
        })
    }
}

/// The new articles that the mailboxes brought: one that failed adds none and
/// stops no other.
pub fn poll_newsletters(counts: &Vec<Option<usize>>) -> (r: usize)
    requires
        polled_total(counts@) <= usize::MAX,
    ensures
        r == polled_total(counts@),
{
    let mut total: usize = 0;
    assert(counts@.take(0) =~= Seq::<Option<usize>>::empty());
    for i in 0..counts.len()
        invariant
            total == polled_total(counts@.take(i as int)),
            polled_total(counts@) <= usize::MAX,
    {
        assert(counts@.take(i + 1).drop_last() =~= counts@.take(i as int));
        proof {
            lemma_polled_grows(counts@, i + 1);
        }
        match counts[i] {
            Some(n) => {
                total = total + n;
            },
            None => {},
        }
    }
    assert(counts@.take(counts@.len() as int) =~= counts@);
    total
}

proof fn lemma_polled_grows(counts: Seq<Option<usize>>, n: int)
    requires
        0 <= n <= counts.len(),
    ensures
        polled_total(counts.take(n)) <= polled_total(counts),
    decreases counts.len() - n,
{
    if n < counts.len() {
        lemma_polled_grows(counts, n + 1);
        assert(counts.take(n + 1).drop_last() =~= counts.take(n));
    } else {
        assert(counts.take(n) =~= counts);
    }
}

// ───────────────────────────── laws ─────────────────────────────

/// How far a refresh is from its end.
pub open spec fn steps_left(stage: RefreshStage, feeds: usize) -> nat {
    match stage {
        RefreshStage::Begin => 2 * feeds as nat + 11,
        RefreshStage::Feeds { left } => 2 * left as nat + 10,
        RefreshStage::Report { left, .. } => 2 * left as nat + 11,
        RefreshStage::Newsletters => 10,
        RefreshStage::Retention => 9,
        RefreshStage::End => 8,
        RefreshStage::Announce => 7,
        RefreshStage::Notify => 6,
        RefreshStage::Sync => 5,
        RefreshStage::AnnounceSync => 4,
        RefreshStage::Badge => 3,
        RefreshStage::Tray => 2,
        RefreshStage::Idle => 2,
        RefreshStage::IdleEnd => 1,
        RefreshStage::Done => 0,
    }
}

/// A refresh never goes back: an event leaves it where it is or brings it
/// nearer to its end.
pub proof fn law_refresh_advances(stage: RefreshStage, feeds: usize, event: RefreshEvent)
    requires
        stage matches RefreshStage::Feeds { left } ==> left > 0,
    ensures
        refresh_step_of(stage, feeds, event) == stage || steps_left(
            refresh_step_of(stage, feeds, event),
            feeds,
        ) < steps_left(stage, feeds),
{
}

/// An idle look for due feeds, and a skipped refresh, touch nothing: they
/// report an empty run and end, without a fetch, a sync, a cleanup or a
/// notification.
pub proof fn law_idle_runs_touch_nothing(feeds: usize, event: RefreshEvent)
    ensures
        refresh_step_of(RefreshStage::Idle, feeds, RefreshEvent::Done) is IdleEnd,
        refresh_step_of(RefreshStage::IdleEnd, feeds, RefreshEvent::Done) is Done,
        refresh_step_of(RefreshStage::Idle, feeds, event) is Idle || refresh_step_of(
            RefreshStage::Idle,
            feeds,
            event,
        ) is IdleEnd,
        refresh_step_of(RefreshStage::IdleEnd, feeds, event) is IdleEnd || refresh_step_of(
            RefreshStage::IdleEnd,
            feeds,
            event,
        ) is Done,
        added_by(RefreshStage::Idle, event) == 0,
        added_by(RefreshStage::IdleEnd, event) == 0,
{
}

/// A failed fetch only records its error: it stores no articles, and the run
/// goes on as behind any other fetch.
pub proof fn law_failures_stay_with_their_feed(
    left: usize,
    feeds: usize,
    feed_id: i64,
    error: Option<String>,
)
    requires
        left > 0,
    ensures
        refresh_step_of(
            RefreshStage::Feeds { left },
            feeds,
            RefreshEvent::Feed { feed_id, new_articles: 0, error },
        ) == (RefreshStage::Report { left: (left - 1) as usize, feed_id, new_articles: 0 }),
        forall|e: String|
            !(#[trigger] steps_of(FeedOutcome::Failed(e))).contains(FeedStep::Ingest),
{
}

// ─────────────────────────── a whole refresh ───────────────────────────

/// The state behind a row of events.
pub open spec fn state_behind(
    state: RefreshState,
    feeds: usize,
    events: Seq<RefreshEvent>,
) -> RefreshState
    decreases events.len(),
{
    if events.len() == 0 {
        state
    } else {
        state_behind(state_after(state, feeds, events[0]), feeds, events.drop_first())
    }
}

/// The actions that a row of events answers, one each.
pub open spec fn actions_behind(
    state: RefreshState,
    feeds: usize,
    events: Seq<RefreshEvent>,
) -> Seq<RefreshAction>
    decreases events.len(),
{
    if events.len() == 0 {
        Seq::empty()
    } else {
        seq![action_of(state, feeds)] + actions_behind(
            state_after(state, feeds, events[0]),
            feeds,
            events.drop_first(),
        )
    }
}

/// The outcome of a fetch: it was dealt with, or its task was lost.
pub open spec fn is_fetch(event: RefreshEvent) -> bool {
    event is Feed || event is Lost
}

/// The events that fetches with these outcomes are told by: each that was not
/// lost is reported, and the report is done.
pub open spec fn fetch_events(fetches: Seq<RefreshEvent>) -> Seq<RefreshEvent>
    decreases fetches.len(),
{
    if fetches.len() == 0 {
        Seq::empty()
    } else {
        (match fetches[0] {
            RefreshEvent::Feed { .. } => seq![fetches[0], RefreshEvent::Done],
            _ => seq![fetches[0]],
        }) + fetch_events(fetches.drop_first())
    }
}

/// The actions for fetches with these outcomes: each is awaited once, and each
/// that was not lost is reported once.
pub open spec fn fetch_actions(fetches: Seq<RefreshEvent>) -> Seq<RefreshAction>
    decreases fetches.len(),
{
    if fetches.len() == 0 {
        Seq::empty()
    } else {
        (match fetches[0] {
            RefreshEvent::Feed { feed_id, new_articles, error } => seq![
                RefreshAction::AwaitFeed,
                RefreshAction::Report(RefreshProgress::FeedDone { feed_id, new_articles, error }),
            ],
            _ => seq![RefreshAction::AwaitFeed],
        }) + fetch_actions(fetches.drop_first())
    }
}

/// The new articles that fetches brought.
pub open spec fn fetched_total(fetches: Seq<RefreshEvent>) -> nat
    decreases fetches.len(),
{
    if fetches.len() == 0 {
        0
    } else {
        (match fetches[0] {
            RefreshEvent::Feed { feed_id, new_articles, error } => new_articles as nat,
            _ => 0nat,
        }) + fetched_total(fetches.drop_first())
    }
}

/// The events behind the fetches, the newsletters having brought so many
/// articles and the sync having ended so.
pub open spec fn closing_events(polled: usize, end: SyncEnd) -> Seq<RefreshEvent> {
    seq![
        RefreshEvent::Polled(polled),
        RefreshEvent::Done,
        RefreshEvent::Done,
        RefreshEvent::Done,
        RefreshEvent::Done,
        RefreshEvent::Synced(end),
    ] + (if end == SyncEnd::Ran {
        seq![RefreshEvent::Done]
    } else {
        Seq::empty()
    }) + seq![RefreshEvent::Done, RefreshEvent::Done]
}

/// The actions behind the fetches, so many new articles having come in all.
pub open spec fn closing_actions(total: nat, end: SyncEnd) -> Seq<RefreshAction> {
    seq![
        RefreshAction::PollNewsletters,
        RefreshAction::Retain,
        RefreshAction::Report(RefreshProgress::Finished { new_articles: total as usize }),
        RefreshAction::Emit(total as usize),
        RefreshAction::Notify(total as usize),
        RefreshAction::Sync,
    ] + (if end == SyncEnd::Ran {
        seq![RefreshAction::Emit(0)]
    } else {
        Seq::empty()
    }) + seq![RefreshAction::UpdateBadge, RefreshAction::RefreshTray]
}

proof fn lemma_behind_joined(
    state: RefreshState,
    feeds: usize,
    a: Seq<RefreshEvent>,
    b: Seq<RefreshEvent>,
)
    ensures
        state_behind(state, feeds, a + b) == state_behind(
            state_behind(state, feeds, a),
            feeds,
            b,
        ),
        actions_behind(state, feeds, a + b) == actions_behind(state, feeds, a) + actions_behind(
            state_behind(state, feeds, a),
            feeds,
            b,
        ),
    decreases a.len(),
{
    if a.len() == 0 {
        assert(a + b =~= b);
        assert(actions_behind(state, feeds, a) + actions_behind(state, feeds, b)
            =~= actions_behind(state, feeds, b));
    } else {
        let next = state_after(state, feeds, a[0]);
        lemma_behind_joined(next, feeds, a.drop_first(), b);
        assert((a + b).drop_first() =~= a.drop_first() + b);
        assert((a + b)[0] == a[0]);
        assert(actions_behind(state, feeds, a + b) =~= actions_behind(state, feeds, a)
            + actions_behind(state_behind(state, feeds, a), feeds, b));
    }
}

proof fn lemma_one_event(state: RefreshState, feeds: usize, event: RefreshEvent)
    ensures
        state_behind(state, feeds, seq![event]) == state_after(state, feeds, event),
        actions_behind(state, feeds, seq![event]) == seq![action_of(state, feeds)],
{
    reveal_with_fuel(state_behind, 2);
    reveal_with_fuel(actions_behind, 2);
    assert(actions_behind(state, feeds, seq![event]) =~= seq![action_of(state, feeds)]);
}

proof fn lemma_fetches(
    state: RefreshState,
    feeds: usize,
    fetches: Seq<RefreshEvent>,
)
    requires
        fetches.len() <= usize::MAX,
        state.stage == awaiting(fetches.len() as usize),
        forall|i: int| 0 <= i < fetches.len() ==> is_fetch(#[trigger] fetches[i]),
    ensures
        state_behind(state, feeds, fetch_events(fetches)).stage is Newsletters,
        state_behind(state, feeds, fetch_events(fetches)).total == state.total + fetched_total(
            fetches,
        ),
        actions_behind(state, feeds, fetch_events(fetches)) == fetch_actions(fetches),
    decreases fetches.len(),
{
    if fetches.len() > 0 {
        let rest = fetches.drop_first();
        assert forall|i: int| 0 <= i < rest.len() implies is_fetch(#[trigger] rest[i]) by {
            assert(rest[i] == fetches[i + 1]);
        }
        assert(is_fetch(fetches[0]));
        let told = state_after(state, feeds, fetches[0]);
        lemma_one_event(state, feeds, fetches[0]);
        match fetches[0] {
            RefreshEvent::Feed { feed_id, new_articles, error } => {
                let next = state_after(told, feeds, RefreshEvent::Done);
                lemma_one_event(told, feeds, RefreshEvent::Done);
                let first = seq![fetches[0]] + seq![RefreshEvent::Done];
                assert(first =~= seq![fetches[0], RefreshEvent::Done]);
                lemma_behind_joined(
                    state,
                    feeds,
                    seq![fetches[0]],
                    seq![RefreshEvent::Done],
                );
                lemma_behind_joined(state, feeds, first, fetch_events(rest));
                lemma_fetches(next, feeds, rest);
                assert(seq![action_of(state, feeds)] + seq![action_of(told, feeds)] =~= seq![
                    RefreshAction::AwaitFeed,
                    RefreshAction::Report(
                        RefreshProgress::FeedDone { feed_id, new_articles, error },
                    ),
                ]);
            },
            _ => {
                lemma_behind_joined(state, feeds, seq![fetches[0]], fetch_events(rest));
                lemma_fetches(told, feeds, rest);
            },
        }
    }
}

proof fn lemma_closing(state: RefreshState, feeds: usize, polled: usize, end: SyncEnd)
    requires
        state.stage is Newsletters,
    ensures
        ({
            let last = state_behind(state, feeds, closing_events(polled, end));
            last.stage is Done && last.total == state.total + polled
        }),
        actions_behind(state, feeds, closing_events(polled, end)) == closing_actions(
            state.total + polled as nat,
            end,
        ),
{
    reveal_with_fuel(state_behind, 10);
    reveal_with_fuel(actions_behind, 10);
    let events = closing_events(polled, end);
    assert(actions_behind(state, feeds, events) =~= closing_actions(
        state.total + polled as nat,
        end,
    ));
}

/// A refresh runs its course: it reports its start, awaits as many fetches as
/// it has feeds and no more, reports each of them that was not lost once, polls
/// the newsletters, cleans up, and reports its end with the sum of what all
/// fetches and newsletters brought, which it also gives back.
pub proof fn law_a_refresh_runs_its_course(
    fetches: Seq<RefreshEvent>,
    polled: usize,
    end: SyncEnd,
)
    requires
        fetches.len() <= usize::MAX,
        fetched_total(fetches) + polled <= usize::MAX,
        forall|i: int| 0 <= i < fetches.len() ==> is_fetch(#[trigger] fetches[i]),
    ensures
        ({
            let feeds = fetches.len() as usize;
            let total = fetched_total(fetches) + polled as nat;
            let start = RefreshState { stage: RefreshStage::Begin, total: 0, error: None };
            let events = seq![RefreshEvent::Done] + fetch_events(fetches) + closing_events(
                polled,
                end,
            );
            &&& actions_behind(start, feeds, events) == seq![
                RefreshAction::Report(RefreshProgress::Started { total: feeds }),
            ] + fetch_actions(fetches) + closing_actions(total, end)
            &&& action_of(state_behind(start, feeds, events), feeds) == RefreshAction::Done(
                total as usize,
            )
        }),
{
    let feeds = fetches.len() as usize;
    let start = RefreshState { stage: RefreshStage::Begin, total: 0, error: None };
    let first = seq![RefreshEvent::Done];
    let s1 = state_after(start, feeds, RefreshEvent::Done);
    lemma_one_event(start, feeds, RefreshEvent::Done);
    lemma_behind_joined(start, feeds, first, fetch_events(fetches));
    lemma_fetches(s1, feeds, fetches);
    let s2 = state_behind(s1, feeds, fetch_events(fetches));
    lemma_behind_joined(
        start,
        feeds,
        first + fetch_events(fetches),
        closing_events(polled, end),
    );
    lemma_closing(s2, feeds, polled, end);
}

/// How many fetches are awaited among these actions.
pub open spec fn awaits_in(actions: Seq<RefreshAction>) -> nat
    decreases actions.len(),
{
    if actions.len() == 0 {
        0
    } else {
        (if actions[0] is AwaitFeed {
            1nat
        } else {
            0nat
        }) + awaits_in(actions.drop_first())
    }
}

proof fn lemma_awaits_joined(a: Seq<RefreshAction>, b: Seq<RefreshAction>)
    ensures
        awaits_in(a + b) == awaits_in(a) + awaits_in(b),
    decreases a.len(),
{
    if a.len() == 0 {
        assert(a + b =~= b);
    } else {
        lemma_awaits_joined(a.drop_first(), b);
        assert((a + b).drop_first() =~= a.drop_first() + b);
    }
}

/// As many fetches are awaited as there are, whatever their outcomes.
pub proof fn law_each_fetch_is_awaited_once(fetches: Seq<RefreshEvent>)
    ensures
        awaits_in(fetch_actions(fetches)) == fetches.len(),
    decreases fetches.len(),
{
    if fetches.len() > 0 {
        law_each_fetch_is_awaited_once(fetches.drop_first());
        let first = match fetches[0] {
            RefreshEvent::Feed { feed_id, new_articles, error } => seq![
                RefreshAction::AwaitFeed,
                RefreshAction::Report(RefreshProgress::FeedDone { feed_id, new_articles, error }),
            ],
            _ => seq![RefreshAction::AwaitFeed],
        };
        lemma_awaits_joined(first, fetch_actions(fetches.drop_first()));
        let rest = first.drop_first();
        assert(rest.len() > 0 ==> rest.drop_first().len() == 0);
        assert(awaits_in(rest) == 0) by {
            if rest.len() > 0 {
                assert(awaits_in(rest.drop_first()) == 0);
            }
        }
    }
}

/// An idle refresh, or one that is skipped, reports its start and its end with
/// nothing between, and gives back 0.
pub proof fn law_an_idle_refresh_only_reports(feeds: usize)
    ensures
        ({
            let start = RefreshState { stage: RefreshStage::Idle, total: 0, error: None };
            let events = seq![RefreshEvent::Done, RefreshEvent::Done];
            &&& actions_behind(start, feeds, events) == seq![
                RefreshAction::Report(RefreshProgress::Started { total: 0 }),
                RefreshAction::Report(RefreshProgress::Finished { new_articles: 0 }),
            ]
            &&& action_of(state_behind(start, feeds, events), feeds) == RefreshAction::Done(0)
        }),
{
    let start = RefreshState { stage: RefreshStage::Idle, total: 0, error: None };
    let a = seq![RefreshEvent::Done];
    let next = state_after(start, feeds, RefreshEvent::Done);
    lemma_one_event(start, feeds, RefreshEvent::Done);
    lemma_one_event(next, feeds, RefreshEvent::Done);
    lemma_behind_joined(start, feeds, a, a);
    assert(a + a =~= seq![RefreshEvent::Done, RefreshEvent::Done]);
    assert(seq![action_of(start, feeds)] + seq![action_of(next, feeds)] =~= seq![
        RefreshAction::Report(RefreshProgress::Started { total: 0 }),
        RefreshAction::Report(RefreshProgress::Finished { new_articles: 0 }),
    ]);
}

/// A setting is read as an integer where it is one, and the default stands for
/// any other and for a missing one.
pub proof fn law_settings_have_defaults(s: Seq<char>, n: i64, default: i64, off: i64)
    ensures
        integer_or(None, default) == default,
        text::parsed_i64(s) is None ==> integer_or(Some(s), default) == default,
        text::parsed_i64(s) == Some(n) ==> integer_or(Some(s), default) == n,
        interval_of(None, off) == 30,
        text::parsed_i64(s) is None ==> interval_of(Some(s), off) == 30,
        text::parsed_i64(s) == Some(n) && n < 5 ==> interval_of(Some(s), off) == 30,
        text::parsed_i64(s) == Some(n) && 5 <= n <= off ==> interval_of(Some(s), off) == n,
        text::parsed_i64(s) == Some(n) && 5 <= n && off < n ==> interval_of(Some(s), off) == off,
{
}

/// A feed that did not change is only marked as looked at, one that failed gets
/// its error, and one that was read has its articles, its data, its validators and
/// its kind stored, in that order.
pub proof fn law_steps_behind_a_fetch(e: String)
    ensures
        steps_of(FeedOutcome::NotModified) == seq![FeedStep::Touch],
        steps_of(FeedOutcome::Failed(e)) == seq![FeedStep::SetError(e)],
        steps_of(FeedOutcome::Updated) == seq![
            FeedStep::Ingest,
            FeedStep::UpdateMeta,
            FeedStep::SetFetchState,
            FeedStep::RefineSourceType,
        ],
        error_of(FeedOutcome::NotModified) is None,
        error_of(FeedOutcome::Updated) is None,
        error_of(FeedOutcome::Failed(e)) == Some(e@),
{
}

/// A poll that failed is recorded in its own words, and one that took too long
/// by how long it may take.
pub proof fn law_polls_are_recorded(n: usize, e: String)
    ensures
        poll_error_of(PollEnd::Fetched(n)) is None,
        poll_error_of(PollEnd::Failed(e)) == Some(e@),
        poll_error_of(PollEnd::Crashed(e)) == Some(e@),
        poll_error_of(PollEnd::TimedOut) == Some("IMAP poll timed out after 90s"@),
{
    reveal_strlit("IMAP poll timed out after ");
    reveal_strlit("s");
    reveal_strlit("IMAP poll timed out after 90s");
    text::law_decimal_notation(9, 0);
    text::law_decimal_notation(0, 9);
    reveal_strlit("0123456789");
    assert(text::decimal(90) =~= seq!['9', '0']);
    assert("IMAP poll timed out after 90s"@ =~= "IMAP poll timed out after "@ + text::decimal(90)
        + "s"@);
}

/// Every article that the store says is new counts once, and no other does.
pub proof fn law_new_articles_are_counted(stored: Seq<Result<bool, String>>, e: String)
    ensures
        new_among(Seq::empty()) == 0,
        new_among(stored.push(Ok(true))) == new_among(stored) + 1,
        new_among(stored.push(Ok(false))) == new_among(stored),
        new_among(stored.push(Err(e))) == new_among(stored),
{
    assert(stored.push(Ok(true)).drop_last() =~= stored);
    assert(stored.push(Ok(false)).drop_last() =~= stored);
    assert(stored.push(Err(e)).drop_last() =~= stored);
}

/// The store is held for at most 64 articles at a time, and for as many as are
/// left where those are fewer.
pub proof fn law_holds_are_short(start: int, len: int)
    requires
        start <= len,
    ensures
        start + 64 <= len ==> chunk_end(start, len) == start + 64,
        start + 64 > len ==> chunk_end(start, len) == len,
{
}

/// A cleanup is due exactly where a finite window is set and the last one was a
/// day ago or more, and it keeps to that window.
pub proof fn law_cleanups_are_due(s: Seq<char>, days: i64, now: int, last: int)
    ensures
        retention_of(None, now, last) is None,
        text::parsed_i64(s) is None ==> retention_of(Some(s), now, last) is None,
        text::parsed_i64(s) == Some(days) && now - last >= 86_400 ==> retention_of(
            Some(s),
            now,
            last,
        ) == Some(days),
        now - last < 86_400 ==> retention_of(Some(s), now, last) is None,
{
}

/// Every mailbox adds what it brought, and one that failed adds nothing.
pub proof fn law_mailboxes_add_up(counts: Seq<Option<usize>>, n: usize)
    ensures
        polled_total(Seq::empty()) == 0,
        polled_total(counts.push(Some(n))) == polled_total(counts) + n,
        polled_total(counts.push(None)) == polled_total(counts),
{
    assert(counts.push(Some(n)).drop_last() =~= counts);
    assert(counts.push(None).drop_last() =~= counts);
}

/// A look for due sources that finds none is idle, and a full refresh never is.
pub proof fn law_refreshes_start(feeds: usize, newsletters: usize)
    ensures
        start_of(RefreshScope::All, feeds, newsletters) == RefreshStage::Begin,
        start_of(RefreshScope::Due, 0, 0) == RefreshStage::Idle,
        feeds > 0 || newsletters > 0 ==> start_of(RefreshScope::Due, feeds, newsletters)
            == RefreshStage::Begin,
{
}

/// A refresh goes by its steps: its feeds one by one, then the newsletters, the
/// cleanup, the report, the announcements, the sync, the badge and the tray.
pub proof fn law_how_a_refresh_goes(
    feeds: usize,
    left: usize,
    feed_id: i64,
    new_articles: usize,
    error: Option<String>,
    n: usize,
)
    requires
        left > 0,
    ensures
        feeds > 0 ==> refresh_step_of(RefreshStage::Begin, feeds, RefreshEvent::Done)
            == (RefreshStage::Feeds { left: feeds }),
        refresh_step_of(RefreshStage::Begin, 0, RefreshEvent::Done) == RefreshStage::Newsletters,
        left > 1 ==> refresh_step_of(RefreshStage::Feeds { left }, feeds, RefreshEvent::Lost)
            == (RefreshStage::Feeds { left: (left - 1) as usize }),
        left == 1 ==> refresh_step_of(RefreshStage::Feeds { left }, feeds, RefreshEvent::Lost)
            == RefreshStage::Newsletters,
        refresh_step_of(
            RefreshStage::Feeds { left },
            feeds,
            RefreshEvent::Feed { feed_id, new_articles, error },
        ) == (RefreshStage::Report { left: (left - 1) as usize, feed_id, new_articles }),
        refresh_step_of(
            RefreshStage::Report { left, feed_id, new_articles },
            feeds,
            RefreshEvent::Done,
        ) == (RefreshStage::Feeds { left }),
        refresh_step_of(
            RefreshStage::Report { left: 0, feed_id, new_articles },
            feeds,
            RefreshEvent::Done,
        ) == RefreshStage::Newsletters,
        refresh_step_of(RefreshStage::Newsletters, feeds, RefreshEvent::Polled(n))
            == RefreshStage::Retention,
        refresh_step_of(RefreshStage::Retention, feeds, RefreshEvent::Done) == RefreshStage::End,
        refresh_step_of(RefreshStage::End, feeds, RefreshEvent::Done) == RefreshStage::Announce,
        refresh_step_of(RefreshStage::Announce, feeds, RefreshEvent::Done) == RefreshStage::Notify,
        refresh_step_of(RefreshStage::Notify, feeds, RefreshEvent::Done) == RefreshStage::Sync,
        refresh_step_of(RefreshStage::Sync, feeds, RefreshEvent::Synced(SyncEnd::Ran))
            == RefreshStage::AnnounceSync,
        refresh_step_of(RefreshStage::Sync, feeds, RefreshEvent::Synced(SyncEnd::NotConnected))
            == RefreshStage::Badge,
        refresh_step_of(RefreshStage::Sync, feeds, RefreshEvent::Synced(SyncEnd::Failed))
            == RefreshStage::Badge,
        refresh_step_of(RefreshStage::AnnounceSync, feeds, RefreshEvent::Done)
            == RefreshStage::Badge,
        refresh_step_of(RefreshStage::Badge, feeds, RefreshEvent::Done) == RefreshStage::Tray,
        refresh_step_of(RefreshStage::Tray, feeds, RefreshEvent::Done) == RefreshStage::Done,
{
}

/// Each step asks for what it is for: every report is of its own feed and with
/// its own error, and the end, the announcement, the notification and the result
/// all carry the total.
pub proof fn law_what_a_refresh_asks_for(
    total: nat,
    error: Option<String>,
    feeds: usize,
    left: usize,
    feed_id: i64,
    new_articles: usize,
)
    ensures
        ({
            let at = |stage: RefreshStage| action_of(RefreshState { stage, total, error }, feeds);
            &&& at(RefreshStage::Idle) == RefreshAction::Report(
                RefreshProgress::Started { total: 0 },
            )
            &&& at(RefreshStage::IdleEnd) == RefreshAction::Report(
                RefreshProgress::Finished { new_articles: 0 },
            )
            &&& at(RefreshStage::Begin) == RefreshAction::Report(
                RefreshProgress::Started { total: feeds },
            )
            &&& at(RefreshStage::Feeds { left }) == RefreshAction::AwaitFeed
            &&& at(RefreshStage::Report { left, feed_id, new_articles }) == RefreshAction::Report(
                RefreshProgress::FeedDone { feed_id, new_articles, error },
            )
            &&& at(RefreshStage::Newsletters) == RefreshAction::PollNewsletters
            &&& at(RefreshStage::Retention) == RefreshAction::Retain
            &&& at(RefreshStage::End) == RefreshAction::Report(
                RefreshProgress::Finished { new_articles: total as usize },
            )
            &&& at(RefreshStage::Announce) == RefreshAction::Emit(total as usize)
            &&& at(RefreshStage::Notify) == RefreshAction::Notify(total as usize)
            &&& at(RefreshStage::Sync) == RefreshAction::Sync
            &&& at(RefreshStage::AnnounceSync) == RefreshAction::Emit(0)
            &&& at(RefreshStage::Badge) == RefreshAction::UpdateBadge
            &&& at(RefreshStage::Tray) == RefreshAction::RefreshTray
            &&& at(RefreshStage::Done) == RefreshAction::Done(total as usize)
        }),
{
}

/// The total grows by what a fetch or the newsletters brought, and by nothing
/// else; the error that is kept is that of the last fetch.
pub proof fn law_gains_are_added(
    state: RefreshState,
    feeds: usize,
    event: RefreshEvent,
    left: usize,
    feed_id: i64,
    new_articles: usize,
    error: Option<String>,
    n: usize,
)
    ensures
        ({
            let after = state_after(state, feeds, event);
            &&& after.stage == refresh_step_of(state.stage, feeds, event)
            &&& state.stage is Feeds && event == (RefreshEvent::Feed {
                feed_id,
                new_articles,
                error,
            }) ==> after.total == state.total + new_articles && after.error == error
            &&& state.stage is Newsletters && event == RefreshEvent::Polled(n) ==> after.total
                == state.total + n
            &&& !(state.stage is Feeds && event is Feed) ==> after.error == state.error
            &&& !(state.stage is Feeds && event is Feed) && !(state.stage is Newsletters && event
                is Polled) ==> after.total == state.total
        }),
{
}

/// The rows of fetches that a whole refresh is stated over: each fetch that was
/// dealt with is awaited, and then reported as what it was; each that was lost is
/// only awaited; and the gains are those of the fetches.
pub proof fn law_rows_of_fetches(
    rest: Seq<RefreshEvent>,
    feed_id: i64,
    new_articles: usize,
    error: Option<String>,
)
    ensures
        fetch_actions(Seq::empty()) == Seq::<RefreshAction>::empty(),
        fetch_events(Seq::empty()) == Seq::<RefreshEvent>::empty(),
        fetched_total(Seq::empty()) == 0,
        ({
            let fetch = RefreshEvent::Feed { feed_id, new_articles, error };
            &&& fetch_actions(seq![fetch] + rest) == seq![
                RefreshAction::AwaitFeed,
                RefreshAction::Report(RefreshProgress::FeedDone { feed_id, new_articles, error }),
            ] + fetch_actions(rest)
            &&& fetch_events(seq![fetch] + rest) == seq![fetch, RefreshEvent::Done] + fetch_events(
                rest,
            )
            &&& fetched_total(seq![fetch] + rest) == new_articles + fetched_total(rest)
        }),
        fetch_actions(seq![RefreshEvent::Lost] + rest) == seq![RefreshAction::AwaitFeed]
            + fetch_actions(rest),
        fetch_events(seq![RefreshEvent::Lost] + rest) == seq![RefreshEvent::Lost] + fetch_events(
            rest,
        ),
        fetched_total(seq![RefreshEvent::Lost] + rest) == fetched_total(rest),
{
    let fetch = RefreshEvent::Feed { feed_id, new_articles, error };
    assert((seq![fetch] + rest)[0] == fetch);
    assert((seq![fetch] + rest).drop_first() =~= rest);
    assert((seq![RefreshEvent::Lost] + rest)[0] == RefreshEvent::Lost);
    assert((seq![RefreshEvent::Lost] + rest).drop_first() =~= rest);
}

/// The actions behind the fetches that a whole refresh is stated over.
pub proof fn law_closing_actions(total: nat)
    ensures
        closing_actions(total, SyncEnd::Ran) == seq![
            RefreshAction::PollNewsletters,
            RefreshAction::Retain,
            RefreshAction::Report(RefreshProgress::Finished { new_articles: total as usize }),
            RefreshAction::Emit(total as usize),
            RefreshAction::Notify(total as usize),
            RefreshAction::Sync,
            RefreshAction::Emit(0),
            RefreshAction::UpdateBadge,
            RefreshAction::RefreshTray,
        ],
        forall|end: SyncEnd|
            end != SyncEnd::Ran ==> #[trigger] closing_actions(total, end) == seq![
                RefreshAction::PollNewsletters,
                RefreshAction::Retain,
                RefreshAction::Report(RefreshProgress::Finished { new_articles: total as usize }),
                RefreshAction::Emit(total as usize),
                RefreshAction::Notify(total as usize),
                RefreshAction::Sync,
                RefreshAction::UpdateBadge,
                RefreshAction::RefreshTray,
            ],
{
    assert(closing_actions(total, SyncEnd::Ran) =~= seq![
        RefreshAction::PollNewsletters,
        RefreshAction::Retain,
        RefreshAction::Report(RefreshProgress::Finished { new_articles: total as usize }),
        RefreshAction::Emit(total as usize),
        RefreshAction::Notify(total as usize),
        RefreshAction::Sync,
        RefreshAction::Emit(0),
        RefreshAction::UpdateBadge,
        RefreshAction::RefreshTray,
    ]);
    assert forall|end: SyncEnd| end != SyncEnd::Ran implies #[trigger] closing_actions(total, end)
        == seq![
        RefreshAction::PollNewsletters,
        RefreshAction::Retain,
        RefreshAction::Report(RefreshProgress::Finished { new_articles: total as usize }),
        RefreshAction::Emit(total as usize),
        RefreshAction::Notify(total as usize),
        RefreshAction::Sync,
        RefreshAction::UpdateBadge,
        RefreshAction::RefreshTray,
    ] by {
        assert(closing_actions(total, end) =~= seq![
            RefreshAction::PollNewsletters,
            RefreshAction::Retain,
            RefreshAction::Report(RefreshProgress::Finished { new_articles: total as usize }),
            RefreshAction::Emit(total as usize),
            RefreshAction::Notify(total as usize),
            RefreshAction::Sync,
            RefreshAction::UpdateBadge,
            RefreshAction::RefreshTray,
        ]);
    }
}

/// What decides how a refresh goes on is where it stands, what it has counted and
/// the error it keeps.
pub proof fn law_refreshes_keep_their_state(run: RefreshRun)
    ensures
        run.state().stage == run.stage,
        run.state().total == run.total_new,
        run.state().error == run.error,
        run.wf() <==> (run.stage matches RefreshStage::Feeds { left } ==> left > 0),
{
}

/// How long things may take, and how many are done at once.
pub proof fn law_limits()
    ensures
        NEWSLETTER_POLL_TIMEOUT_SECS == 90,
        NEWSLETTER_FETCH_LIMIT == 50,
        NEWSLETTER_CONCURRENCY == 4,
        INGEST_CHUNK == 64,
        SCHEDULER_TICK_SECS == 60,
        SCHEDULER_DELAY_SECS == 8,
{
}

} // verus!
