use papr::cli::AxiError;
use papr::manage::{
    cmd_admin, cmd_extract, cmd_feed, cmd_folder, cmd_folders, cmd_highlight, cmd_highlights,
    cmd_mark, cmd_mark_all, cmd_newsletter, cmd_newsletters, cmd_refresh, cmd_rule, cmd_rules,
    cmd_settings, cmd_stats, cmd_tag, cmd_unsubscribe, confirm_admin, confirm_folder,
    confirm_highlight, confirm_newsletter, confirm_rule, confirm_tag, extract_url,
    newsletter_exists, newsletter_url, progress_line, set_rule_enabled, AdminCmd, ArticleFlags,
    FeedCmd, FolderCmd, HighlightCmd, MarkFlag, MarkState, Marking, NewsletterCmd, Removal,
    RuleCmd, RuleSwitch, SettingsCmd, Stats, TagCmd,
};
use papr::models::{Feed, Folder, Highlight, NewsletterSource, Rule};
use papr::scheduler::RefreshProgress;

fn s(text: &str) -> String {
    text.to_string()
}

fn flags(is_read: bool) -> Option<ArticleFlags> {
    Some(ArticleFlags { is_read, is_starred: false, read_later: true })
}

#[test]
fn marks_say_what_they_changed() {
    let marks = vec![
        Marking { id: 1, flags: flags(false) },
        Marking { id: 2, flags: flags(true) },
        Marking { id: 3, flags: None },
    ];
    assert_eq!(
        cmd_mark(MarkState::Read, &marks).unwrap(),
        "marked[3]:\n  #1: read\n  #2: already read (no-op)\n  #3: not found\n"
    );
    assert_eq!(
        cmd_mark(MarkState::Unread, &marks).unwrap(),
        "marked[3]:\n  #1: already unread (no-op)\n  #2: unread\n  #3: not found\n"
    );
    let one = vec![Marking { id: 1, flags: flags(false) }];
    assert_eq!(cmd_mark(MarkState::Star, &one).unwrap(), "marked[1]:\n  #1: star\n");
    assert_eq!(
        cmd_mark(MarkState::Unstar, &one).unwrap(),
        "marked[1]:\n  #1: already unstar (no-op)\n"
    );
    assert_eq!(
        cmd_mark(MarkState::Later, &one).unwrap(),
        "marked[1]:\n  #1: already later (no-op)\n"
    );
    assert_eq!(cmd_mark(MarkState::Unlater, &one).unwrap(), "marked[1]:\n  #1: unlater\n");
    assert_eq!(cmd_mark(MarkState::Read, &vec![]).unwrap(), "marked[0]:\n");
    assert_eq!(cmd_mark_all(4).unwrap(), "marked 4 article(s) read\n");
}

#[test]
fn states_are_named() {
    for name in ["read", "unread", "star", "unstar", "later", "unlater"] {
        assert_eq!(MarkState::parse(name).unwrap().name(), name);
    }
    assert_eq!(MarkState::parse("Read"), None);
    assert_eq!(MarkState::Unstar.change(), (MarkFlag::Starred, false));
    assert_eq!(MarkState::Read.change(), (MarkFlag::Read, true));
    assert_eq!(MarkState::Later.change(), (MarkFlag::ReadLater, true));
}

fn refused(action: &str, rerun: &str) -> AxiError {
    AxiError::usage(
        &format!("{action} is destructive and needs confirmation"),
        vec![format!("Run `{rerun} --yes` to proceed")],
    )
}

#[test]
fn feeds_leave_only_when_confirmed() {
    assert_eq!(
        cmd_unsubscribe(4, None, false),
        Ok(Removal::NoOp(s("feed: #4 not found (no-op)\n")))
    );
    assert_eq!(
        cmd_unsubscribe(4, Some("T"), false),
        Err(refused("unsubscribe", "papr unsubscribe 4"))
    );
    assert_eq!(
        cmd_unsubscribe(4, Some("T"), true),
        Ok(Removal::Delete(s("unsubscribed: #4 T\n")))
    );
}

#[test]
fn folders_are_managed() {
    let create = FolderCmd::Create { name: s("A") };
    assert_eq!(confirm_folder(&create), Ok(()));
    assert_eq!(cmd_folder(&create, 7).unwrap(), "folder: #7 A\n");
    let rename = FolderCmd::Rename { id: 3, name: s("B") };
    assert_eq!(cmd_folder(&rename, 0).unwrap(), "folder: #3 renamed to B\n");
    let delete = FolderCmd::Delete { id: 3, yes: false };
    assert_eq!(
        confirm_folder(&delete),
        Err(refused("folder delete", "papr folder delete 3"))
    );
    assert_eq!(
        cmd_folder(&FolderCmd::Delete { id: 3, yes: true }, 0).unwrap(),
        "folder: #3 deleted\n"
    );
    assert_eq!(cmd_folders(&vec![], &vec![]).unwrap(), "folders: 0 defined\n");
    let feeds = vec![Feed {
        id: 1,
        title: s("t"),
        unread_count: 0,
        source_type: s("rss"),
        folder_id: Some(3),
    }];
    let folders = vec![Folder { id: 3, name: s("A") }, Folder { id: 4, name: s("B") }];
    assert_eq!(
        cmd_folders(&folders, &feeds).unwrap(),
        "count: 2 folders\nfolders[2]{id,name,feeds}:\n  3,A,1\n  4,B,0\nhelp[1]:\n  \
         Run `papr list --folder <id>` to list a folder's articles\n"
    );
}

#[test]
fn feeds_are_managed() {
    let said = |cmd: FeedCmd| cmd_feed(&cmd).unwrap();
    assert_eq!(said(FeedCmd::Rename { id: 1, title: s("T") }), "feed: #1 renamed to T\n");
    assert_eq!(said(FeedCmd::Move { id: 1, folder: Some(2) }), "feed: #1 moved to folder 2\n");
    assert_eq!(said(FeedCmd::Move { id: 1, folder: None }), "feed: #1 moved out of any folder\n");
    assert_eq!(
        said(FeedCmd::Interval { id: 1, minutes: Some(15) }),
        "feed: #1 refresh interval set to 15 min\n"
    );
    assert_eq!(
        said(FeedCmd::Interval { id: 1, minutes: None }),
        "feed: #1 now follows the global interval\n"
    );
    assert_eq!(said(FeedCmd::Translate { id: 1, on: true }), "feed: #1 auto-translate on\n");
    assert_eq!(said(FeedCmd::Translate { id: 1, on: false }), "feed: #1 auto-translate off\n");
}

#[test]
fn tags_are_managed() {
    let said = |cmd: TagCmd| cmd_tag(&cmd, 9).unwrap();
    assert_eq!(said(TagCmd::Create { name: s("x") }), "tag: #9 x\n");
    assert_eq!(said(TagCmd::Rename { id: 1, name: s("y") }), "tag: #1 renamed to y\n");
    assert_eq!(said(TagCmd::Color { id: 1, color: s("red") }), "tag: #1 colour red\n");
    assert_eq!(said(TagCmd::Delete { id: 1, yes: true }), "tag: #1 deleted\n");
    assert_eq!(
        said(TagCmd::Add { tag_id: 1, article_id: 2 }),
        "tagged: article 2 += tag 1\n"
    );
    assert_eq!(
        said(TagCmd::Remove { tag_id: 1, article_id: 2 }),
        "untagged: article 2 -= tag 1\n"
    );
    assert_eq!(
        confirm_tag(&TagCmd::Delete { id: 1, yes: false }),
        Err(refused("tag delete", "papr tag delete 1"))
    );
    assert_eq!(confirm_tag(&TagCmd::Create { name: s("x") }), Ok(()));
}

fn rule(id: i64, enabled: bool) -> Rule {
    Rule {
        id,
        name: s("mute"),
        enabled,
        feed_id: if id == 1 { None } else { Some(5) },
        field: s("title"),
        query: s("a,b"),
        action: s("skip"),
    }
}

#[test]
fn rules_are_managed() {
    assert_eq!(
        cmd_rules(&vec![]).unwrap(),
        "rules: 0 defined\nhelp[1]:\n  Run `papr rule create <name> <keywords>` to add one\n"
    );
    assert_eq!(
        cmd_rules(&vec![rule(1, true), rule(2, false)]).unwrap(),
        "count: 2 rules\nrules[2]{id,name,enabled,field,query,action,feed}:\n  \
         1,mute,on,title,\"a,b\",skip,all\n  2,mute,off,title,\"a,b\",skip,5\nhelp[1]:\n  \
         Run `papr rule disable <id>` to turn a rule off\n"
    );
    let create = RuleCmd::Create { name: s("n"), query: s("q"), field: s("any"), action: s("star") };
    assert_eq!(cmd_rule(&create, 3).unwrap(), "rule: #3 n (any ~ q → star)\n");
    assert_eq!(
        cmd_rule(&RuleCmd::Delete { id: 3, yes: true }, 0).unwrap(),
        "rule: #3 deleted\n"
    );
    assert_eq!(
        confirm_rule(&RuleCmd::Delete { id: 3, yes: false }),
        Err(refused("rule delete", "papr rule delete 3"))
    );
    assert_eq!(confirm_rule(&create), Ok(()));
    let rules = vec![rule(1, true), rule(2, false)];
    assert_eq!(
        set_rule_enabled(&rules, 1, true),
        Ok(RuleSwitch::NoOp(s("rule: #1 already enabled (no-op)\n")))
    );
    assert_eq!(
        set_rule_enabled(&rules, 2, false),
        Ok(RuleSwitch::NoOp(s("rule: #2 already disabled (no-op)\n")))
    );
    assert_eq!(
        set_rule_enabled(&rules, 2, true),
        Ok(RuleSwitch::Store(1, s("rule: #2 enabled\n")))
    );
    assert_eq!(
        set_rule_enabled(&rules, 1, false),
        Ok(RuleSwitch::Store(0, s("rule: #1 disabled\n")))
    );
    let on = vec![rule(1, true), rule(2, true)];
    assert!(matches!(set_rule_enabled(&on, 2, true), Ok(RuleSwitch::NoOp(_))));
    assert_eq!(
        set_rule_enabled(&rules, 9, true),
        Err(AxiError::runtime("rule #9 not found"))
    );
}

#[test]
fn highlights_are_managed() {
    assert_eq!(cmd_highlights(&vec![]).unwrap(), "highlights: 0 found\n");
    let h = Highlight {
        id: 1,
        article_id: 2,
        quote: "q".repeat(61),
        prefix: s(""),
        suffix: s(""),
        text_offset: 0,
        color: s("yellow"),
        note: s("a,b"),
        created_at: s(""),
    };
    assert_eq!(
        cmd_highlights(&vec![h]).unwrap(),
        format!(
            "count: 1 highlights\nhighlights[1]{{id,article,quote,color,note}}:\n  1,2,{}…,yellow,\"a,b\"\n",
            "q".repeat(59)
        )
    );
    let said = |cmd: HighlightCmd| cmd_highlight(&cmd, 5).unwrap();
    assert_eq!(said(HighlightCmd::Create { article: 2 }), "highlight: #5 on article 2\n");
    assert_eq!(said(HighlightCmd::Note { id: 1 }), "highlight: #1 note updated\n");
    assert_eq!(
        said(HighlightCmd::Color { id: 1, color: s("red") }),
        "highlight: #1 colour red\n"
    );
    assert_eq!(said(HighlightCmd::Delete { id: 1, yes: true }), "highlight: #1 deleted\n");
    assert_eq!(
        confirm_highlight(&HighlightCmd::Delete { id: 1, yes: false }),
        Err(refused("highlight delete", "papr highlight delete 1"))
    );
    assert_eq!(confirm_highlight(&HighlightCmd::Note { id: 1 }), Ok(()));
}

#[test]
fn newsletters_are_managed() {
    assert_eq!(
        cmd_newsletters(&vec![]).unwrap(),
        "newsletters: 0 configured\nhelp[1]:\n  Run `papr newsletter add --title .. --host .. --user .. --password ..` to add one\n"
    );
    let source = NewsletterSource {
        feed_id: 1,
        title: s("News"),
        host: s("imap.e.com"),
        port: 993,
        username: s("me"),
        folder: s("INBOX"),
    };
    assert_eq!(
        cmd_newsletters(&vec![source]).unwrap(),
        "count: 1 newsletter sources\nnewsletters[1]{feed,title,host,user,folder}:\n  \
         1,News,imap.e.com:993,me,INBOX\n"
    );
    assert_eq!(newsletter_url("me", "h", "INBOX"), "newsletter://me@h/INBOX");
    assert_eq!(
        newsletter_exists(3).unwrap(),
        "newsletter: #3 already configured (no-op)\n"
    );
    let add_one = NewsletterCmd::Add { title: s("T"), host: s("h"), port: 143 };
    assert_eq!(confirm_newsletter(&add_one), Ok(()));
    assert_eq!(
        cmd_newsletter(&add_one, 6).unwrap(),
        "newsletter:\n  feed: 6\n  title: T\n  host: h:143\nhelp[1]:\n  \
         Run `papr refresh --feed 6` to poll it now\n"
    );
    assert_eq!(
        confirm_newsletter(&NewsletterCmd::Remove { feed_id: 6, yes: false }),
        Err(refused("newsletter remove", "papr newsletter remove 6"))
    );
    assert_eq!(
        cmd_newsletter(&NewsletterCmd::Remove { feed_id: 6, yes: true }, 0).unwrap(),
        "newsletter: #6 removed\n"
    );
}

#[test]
fn settings_and_statistics() {
    let get = SettingsCmd::Get { key: s("k") };
    assert_eq!(cmd_settings(&get, Some("v,w")).unwrap(), "k: \"v,w\"\n");
    assert_eq!(cmd_settings(&get, None).unwrap(), "k: (unset)\n");
    let change = SettingsCmd::Change { key: s("k"), value: s("v,w") };
    assert_eq!(cmd_settings(&change, None).unwrap(), "k: v,w\n");
    let stats = Stats { bytes: 2048, articles: 1, feeds: 2, unread: 3, starred: 4, later: 5 };
    assert_eq!(
        cmd_stats(&stats).unwrap(),
        "stats:\n  db_size: 2.0 KB\n  articles: 1\n  feeds: 2\n  unread: 3\n  starred: 4\n  read_later: 5\n"
    );
}

#[test]
fn maintenance_is_confirmed() {
    let cleanup = |yes: bool| AdminCmd::Cleanup { days: 30, yes };
    assert_eq!(
        confirm_admin(&cleanup(false)),
        Err(refused("cleanup", "papr admin cleanup 30"))
    );
    assert_eq!(confirm_admin(&cleanup(true)), Ok(()));
    assert_eq!(
        cmd_admin(&cleanup(true), 2).unwrap(),
        "cleanup: removed 2 article(s) older than 30 days\n"
    );
    assert_eq!(
        confirm_admin(&AdminCmd::Vacuum { yes: false }),
        Err(refused("vacuum", "papr admin vacuum"))
    );
    assert_eq!(
        confirm_admin(&AdminCmd::Reset { yes: false }),
        Err(refused("settings reset", "papr admin reset"))
    );
    assert_eq!(
        cmd_admin(&AdminCmd::Vacuum { yes: true }, 0).unwrap(),
        "vacuum: database compacted\n"
    );
    assert_eq!(
        cmd_admin(&AdminCmd::Reset { yes: true }, 0).unwrap(),
        "settings: reset to defaults\n"
    );
}

#[test]
fn refreshes_are_reported() {
    assert_eq!(cmd_refresh(None, 0).unwrap(), "refresh:\n  scope: all\n  new: 0\n");
    assert_eq!(
        cmd_refresh(Some(3), 2).unwrap(),
        "refresh:\n  scope: feed 3\n  new: 2\nhelp[1]:\n  Run `papr list` to see what's new\n"
    );
    assert_eq!(
        progress_line(&RefreshProgress::Started { total: 2 }).as_deref(),
        Some("refreshing 2 feed(s)…")
    );
    let done = |new_articles: usize, error: Option<&str>| RefreshProgress::FeedDone {
        feed_id: 1,
        new_articles,
        error: error.map(s),
    };
    assert_eq!(progress_line(&done(2, Some("x"))).as_deref(), Some("  feed 1: error — x"));
    assert_eq!(progress_line(&done(2, None)).as_deref(), Some("  feed 1: 2 new"));
    assert_eq!(progress_line(&done(0, None)), None);
    assert_eq!(
        progress_line(&RefreshProgress::Finished { new_articles: 2 }).as_deref(),
        Some("done — 2 new article(s)")
    );
}

#[test]
fn extraction_counts_characters_of_text() {
    assert_eq!(extract_url(1, None), Err(AxiError::runtime("article #1 not found")));
    assert_eq!(
        extract_url(1, Some(None)),
        Err(AxiError::runtime("article #1 has no URL to extract"))
    );
    assert_eq!(extract_url(1, Some(Some(s("https://e")))), Ok(s("https://e")));
    assert_eq!(
        cmd_extract(1, "<p>日本</p><p>a</p>").unwrap(),
        "extracted:\n  id: 1\n  chars: 4\nhelp[1]:\n  Run `papr read 1 --full` to read the extracted text\n"
    );
}
