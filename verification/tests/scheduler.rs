use papr::scheduler::{
    admission, concurrency_of, feed_error, feed_steps, fetch_one, last_cleanup, mailbox_steps, poll_error,
    poll_newsletters,
    refresh_interval, retention_due, retention_stamp, Admission, FeedOutcome, FeedStep, FetchEnd,
    IngestRun, PollEnd, RefreshAction, RefreshEvent, RefreshProgress, RefreshRun, RefreshScope,
    SyncEnd, NEWSLETTER_CONCURRENCY, NEWSLETTER_FETCH_LIMIT, NEWSLETTER_POLL_TIMEOUT_SECS,
    SCHEDULER_DELAY_SECS, SCHEDULER_TICK_SECS,
};

fn s(text: &str) -> String {
    text.to_string()
}

#[test]
fn only_one_refresh_runs() {
    assert_eq!(admission(true, true), Admission::Wait);
    assert_eq!(admission(false, true), Admission::Skip);
    assert_eq!(admission(false, false), Admission::Run);
}

#[test]
fn intervals_have_bounds() {
    let off = 1_000_000;
    assert_eq!(refresh_interval(None, off), 30);
    assert_eq!(refresh_interval(Some("x"), off), 30);
    assert_eq!(refresh_interval(Some("4"), off), 30);
    assert_eq!(refresh_interval(Some("5"), off), 5);
    assert_eq!(refresh_interval(Some("+60"), off), 60);
    assert_eq!(refresh_interval(Some("9999999"), off), off);
    assert_eq!(concurrency_of(None), 6);
    assert_eq!(concurrency_of(Some("many")), 6);
    assert_eq!(concurrency_of(Some("")), 6);
    assert_eq!(concurrency_of(Some("9223372036854775808")), 6);
    assert_eq!(concurrency_of(Some("0")), 1);
    assert_eq!(concurrency_of(Some("-3")), 1);
    assert_eq!(concurrency_of(Some("1")), 1);
    assert_eq!(concurrency_of(Some("12")), 12);
    assert_eq!(concurrency_of(Some("16")), 16);
    assert_eq!(concurrency_of(Some("9223372036854775807")), 16);
    assert_eq!(
        (
            NEWSLETTER_POLL_TIMEOUT_SECS,
            NEWSLETTER_FETCH_LIMIT,
            NEWSLETTER_CONCURRENCY,
            SCHEDULER_TICK_SECS,
            SCHEDULER_DELAY_SECS
        ),
        (90, 50, 4, 60, 8)
    );
}

#[test]
fn fetches_have_outcomes_and_steps() {
    assert_eq!(fetch_one(FetchEnd::NotModified), FeedOutcome::NotModified);
    assert_eq!(fetch_one(FetchEnd::Parsed), FeedOutcome::Updated);
    assert_eq!(fetch_one(FetchEnd::Unreadable(s("xml"))), FeedOutcome::Failed(s("xml")));
    assert_eq!(fetch_one(FetchEnd::Failed(s("dns"))), FeedOutcome::Failed(s("dns")));
    assert_eq!(feed_error(FeedOutcome::Updated), None);
    assert_eq!(feed_error(FeedOutcome::NotModified), None);
    assert_eq!(feed_error(FeedOutcome::Failed(s("dns"))), Some(s("dns")));
    assert_eq!(feed_steps(&FeedOutcome::NotModified), vec![FeedStep::Touch]);
    assert_eq!(
        feed_steps(&FeedOutcome::Failed(s("dns"))),
        vec![FeedStep::SetError(s("dns"))]
    );
    assert_eq!(
        feed_steps(&FeedOutcome::Updated),
        vec![
            FeedStep::Ingest,
            FeedStep::UpdateMeta,
            FeedStep::SetFetchState,
            FeedStep::RefineSourceType,
        ]
    );
}

#[test]
fn mailboxes_fail_by_themselves() {
    assert_eq!(poll_error(&PollEnd::Fetched(3)), None);
    assert_eq!(poll_error(&PollEnd::Failed(s("auth"))).as_deref(), Some("auth"));
    assert_eq!(poll_error(&PollEnd::Crashed(s("panic"))).as_deref(), Some("panic"));
    assert_eq!(
        poll_error(&PollEnd::TimedOut).as_deref(),
        Some("IMAP poll timed out after 90s")
    );
    assert_eq!(mailbox_steps(&PollEnd::Fetched(3)), vec![FeedStep::Ingest, FeedStep::Touch]);
    assert_eq!(
        mailbox_steps(&PollEnd::TimedOut),
        vec![FeedStep::SetError(s("IMAP poll timed out after 90s"))]
    );
    assert_eq!(poll_newsletters(&vec![Some(2), None, Some(3)]), 5);
    assert_eq!(poll_newsletters(&vec![]), 0);
}

#[test]
fn articles_are_stored_in_chunks() {
    let mut run = IngestRun::new(130);
    let mut chunks = vec![];
    while let Some((from, to)) = run.next_chunk() {
        chunks.push((from, to));
        let results: Vec<Result<bool, String>> = (from..to)
            .map(|i| match i % 3 {
                0 => Ok(true),
                1 => Ok(false),
                _ => Err(s("locked")),
            })
            .collect();
        run.stored(&results);
    }
    assert_eq!(chunks, vec![(0, 64), (64, 128), (128, 130)]);
    assert_eq!(run.new_count, (0..130).filter(|i| i % 3 == 0).count());
    assert_eq!(IngestRun::new(0).next_chunk(), None);
}

#[test]
fn old_articles_go_once_a_day() {
    assert_eq!(retention_due(None, 100_000, 0), None);
    assert_eq!(retention_due(None, i64::MAX, i64::MIN), None);
    assert_eq!(retention_due(Some("never"), 100_000, 0), None);
    assert_eq!(retention_due(Some("30"), 86_400, 0), Some(30));
    assert_eq!(retention_due(Some("30"), 86_399, 0), None);
    assert_eq!(retention_stamp(86_400, true).as_deref(), Some("86400"));
    assert_eq!(retention_stamp(86_400, false), None);
    // A cleanup that was stamped keeps the next one away for a day.
    let stamp: i64 = last_cleanup(retention_stamp(200_000, true).as_deref());
    assert_eq!(stamp, 200_000);
    assert_eq!(last_cleanup(None), 0);
    assert_eq!(last_cleanup(Some("yesterday")), 0);
    assert_eq!(last_cleanup(Some("-5")), -5);
    assert_eq!(retention_due(Some("30"), 200_000 + 86_399, stamp), None);
    assert_eq!(retention_due(Some("30"), 200_000 + 86_400, stamp), Some(30));
}

#[test]
fn an_idle_look_touches_nothing() {
    let mut run = RefreshRun::new(RefreshScope::Due, 0, 0);
    assert_eq!(run.action(), RefreshAction::Report(RefreshProgress::Started { total: 0 }));
    run.answer(RefreshEvent::Done);
    assert_eq!(run.action(), RefreshAction::Report(RefreshProgress::Finished { new_articles: 0 }));
    run.answer(RefreshEvent::Done);
    assert_eq!(run.action(), RefreshAction::Done(0));
}

#[test]
fn a_refresh_that_is_skipped_reports_an_empty_run() {
    let mut run = RefreshRun::skipped();
    assert_eq!(run.action(), RefreshAction::Report(RefreshProgress::Started { total: 0 }));
    run.answer(RefreshEvent::Done);
    assert_eq!(run.action(), RefreshAction::Report(RefreshProgress::Finished { new_articles: 0 }));
    run.answer(RefreshEvent::Done);
    assert_eq!(run.action(), RefreshAction::Done(0));
}

#[test]
fn a_refresh_runs_its_course() {
    let mut run = RefreshRun::new(RefreshScope::All, 3, 1);
    assert_eq!(run.action(), RefreshAction::Report(RefreshProgress::Started { total: 3 }));
    run.answer(RefreshEvent::Done);
    assert_eq!(run.action(), RefreshAction::AwaitFeed);
    run.answer(RefreshEvent::Feed { feed_id: 1, new_articles: 2, error: None });
    assert_eq!(
        run.action(),
        RefreshAction::Report(RefreshProgress::FeedDone { feed_id: 1, new_articles: 2, error: None })
    );
    run.answer(RefreshEvent::Done);
    run.answer(RefreshEvent::Lost);
    run.answer(RefreshEvent::Feed { feed_id: 3, new_articles: 0, error: Some(s("dns")) });
    assert_eq!(
        run.action(),
        RefreshAction::Report(RefreshProgress::FeedDone {
            feed_id: 3,
            new_articles: 0,
            error: Some(s("dns")),
        })
    );
    run.answer(RefreshEvent::Done);
    assert_eq!(run.action(), RefreshAction::PollNewsletters);
    run.answer(RefreshEvent::Polled(4));
    let mut rest = vec![];
    loop {
        let action = run.action();
        match &action {
            RefreshAction::Sync => run.answer(RefreshEvent::Synced(SyncEnd::Ran)),
            RefreshAction::Done(_) => {
                rest.push(action);
                break;
            }
            _ => run.answer(RefreshEvent::Done),
        }
        rest.push(action);
    }
    assert_eq!(
        rest,
        vec![
            RefreshAction::Retain,
            RefreshAction::Report(RefreshProgress::Finished { new_articles: 6 }),
            RefreshAction::Emit(6),
            RefreshAction::Notify(6),
            RefreshAction::Sync,
            RefreshAction::Emit(0),
            RefreshAction::UpdateBadge,
            RefreshAction::RefreshTray,
            RefreshAction::Done(6),
        ]
    );
}

#[test]
fn a_sync_that_did_not_run_is_not_announced() {
    for end in [SyncEnd::NotConnected, SyncEnd::Failed] {
        let mut run = RefreshRun::new(RefreshScope::All, 0, 0);
        run.answer(RefreshEvent::Done);
        assert_eq!(run.action(), RefreshAction::PollNewsletters);
        run.answer(RefreshEvent::Polled(0));
        while run.action() != RefreshAction::Sync {
            run.answer(RefreshEvent::Done);
        }
        run.answer(RefreshEvent::Synced(end));
        assert_eq!(run.action(), RefreshAction::UpdateBadge);
    }
}
