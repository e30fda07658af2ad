//! The command line's commands that change things: what each says, what it
//! refuses, and in which order it goes to the network and the store.

use vstd::prelude::*;
use crate::cli::{
    cap, capped, human_bytes, one_line, outcome, push_row, require_yes, runtime_error, size_text,
    unconfirmed, AxiError, AxiErrorView,
};
use crate::commands::feeds_in;
use crate::markup::fragment_edges;
use crate::models::{Feed, Folder, Highlight, NewsletterSource, Rule};
use crate::sanitize::{collapsed_text, html_to_text};
use crate::scheduler::RefreshProgress;
use crate::text;
use crate::toon::{cells, header_to, help_to, kv_to, lines_to, scalar, scalar_of, table_to, Out};

verus! {

/// A command's answer that cannot fail.
pub open spec fn said(doc: Seq<char>) -> Result<Seq<char>, AxiErrorView> {
    Ok(doc)
}

fn say(line: &str) -> (r: Result<String, AxiError>)
    ensures
        outcome(r) == said(one_line(line@)),
{
    crate::cli::ok_line(line)
}

fn fail(message: &str) -> (r: Result<String, AxiError>)
    ensures
        outcome(r) == Err::<Seq<char>, AxiErrorView>(runtime_error(message@)),
{
    Err(AxiError::runtime(message))
}

// ───────────────────────────── mark ─────────────────────────────

/// The states that an article can be marked with.
#[derive(Clone, Copy, Debug, PartialEq, Eq, Structural)]
pub enum MarkState {
    Read,
    Unread,
    Star,
    Unstar,
    Later,
    Unlater,
}

/// The flags of an article that a mark changes.
#[derive(Clone, Copy, Debug, PartialEq, Eq, Structural)]
pub enum MarkFlag {
    Read,
    Starred,
    ReadLater,
}

/// An article's flags.
#[derive(Clone, Copy, Debug, PartialEq, Eq, Structural)]
pub struct ArticleFlags {
    pub is_read: bool,
    pub is_starred: bool,
    pub read_later: bool,
}

/// The flag that a mark sets, and to what.
pub open spec fn change_of(state: MarkState) -> (MarkFlag, bool) {
    match state {
        MarkState::Read => (MarkFlag::Read, true),
        MarkState::Unread => (MarkFlag::Read, false),
        MarkState::Star => (MarkFlag::Starred, true),
        MarkState::Unstar => (MarkFlag::Starred, false),
        MarkState::Later => (MarkFlag::ReadLater, true),
        MarkState::Unlater => (MarkFlag::ReadLater, false),
    }
}

/// A mark in words.
pub open spec fn state_name(state: MarkState) -> Seq<char> {
    match state {
        MarkState::Read => "read"@,
        MarkState::Unread => "unread"@,
        MarkState::Star => "star"@,
        MarkState::Unstar => "unstar"@,
        MarkState::Later => "later"@,
        MarkState::Unlater => "unlater"@,
    }
}

/// What an article's flag is.
pub open spec fn flag_value(flags: ArticleFlags, flag: MarkFlag) -> bool {
    match flag {
        MarkFlag::Read => flags.is_read,
        MarkFlag::Starred => flags.is_starred,
        MarkFlag::ReadLater => flags.read_later,
    }
}

/// An article is marked so already.
pub open spec fn is_marked(flags: ArticleFlags, state: MarkState) -> bool {
    flag_value(flags, change_of(state).0) == change_of(state).1
}

/// An article's flags behind a mark.
pub open spec fn marked(flags: ArticleFlags, state: MarkState) -> ArticleFlags {
    let (flag, value) = change_of(state);
    match flag {
        MarkFlag::Read => ArticleFlags { is_read: value, ..flags },
        MarkFlag::Starred => ArticleFlags { is_starred: value, ..flags },
        MarkFlag::ReadLater => ArticleFlags { read_later: value, ..flags },
    }
}

impl MarkState {
    /// The mark of this name.
    pub fn parse(name: &str) -> (r: Option<MarkState>)
        ensures
            match r {
                Some(state) => name@ == state_name(state),
                None => forall|state: MarkState| name@ != #[trigger] state_name(state),
            },
    {
        if text::same(name, "read") {
            Some(MarkState::Read)
        } else if text::same(name, "unread") {
            Some(MarkState::Unread)
        } else if text::same(name, "star") {
            Some(MarkState::Star)
        } else if text::same(name, "unstar") {
            Some(MarkState::Unstar)
        } else if text::same(name, "later") {
            Some(MarkState::Later)
        } else if text::same(name, "unlater") {
            Some(MarkState::Unlater)
        } else {
            None
        }
    }

    /// The mark's name.
    pub fn name(self) -> (r: &'static str)
        ensures
            r@ == state_name(self),
    {
        match self {
            MarkState::Read => "read",
            MarkState::Unread => "unread",
            MarkState::Star => "star",
            MarkState::Unstar => "unstar",
            MarkState::Later => "later",
            MarkState::Unlater => "unlater",
        }
    }

    /// The flag that the mark sets, and to what.
    pub fn change(self) -> (r: (MarkFlag, bool))
        ensures
            r == change_of(self),
    {
        match self {
            MarkState::Read => (MarkFlag::Read, true),
            MarkState::Unread => (MarkFlag::Read, false),
            MarkState::Star => (MarkFlag::Starred, true),
            MarkState::Unstar => (MarkFlag::Starred, false),
            MarkState::Later => (MarkFlag::ReadLater, true),
            MarkState::Unlater => (MarkFlag::ReadLater, false),
        }
    }
}

/// Marking is idempotent: a mark that an article has already changes nothing,
/// and behind a mark the article has it.
pub proof fn law_marking_is_idempotent(flags: ArticleFlags, state: MarkState)
    ensures
        is_marked(marked(flags, state), state),
        is_marked(flags, state) ==> marked(flags, state) == flags,
        marked(marked(flags, state), state) == marked(flags, state),
{
}

/// An article that was to be marked, and its flags before, where there is
/// such an article.
#[derive(Debug, PartialEq, Eq)]
pub struct Marking {
    pub id: i64,
    pub flags: Option<ArticleFlags>,
}

/// What is said of one marked article.
pub open spec fn mark_line(state: MarkState, m: Marking) -> Seq<char> {
    let id = "#"@ + text::numeral(m.id as int);
    match m.flags {
        None => id + ": not found"@,
        Some(flags) => if is_marked(flags, state) {
            id + ": already "@ + state_name(state) + " (no-op)"@
        } else {
            id + ": "@ + state_name(state)
        },
    }
}

/// What is said of the marked articles.
pub open spec fn mark_lines(state: MarkState, marks: Seq<Marking>) -> Seq<Seq<char>> {
    marks.map_values(|m: Marking| mark_line(state, m))
}

/// What is said of the marked articles.
pub fn cmd_mark(state: MarkState, marks: &Vec<Marking>) -> (r: Result<String, AxiError>)
    ensures
        outcome(r) == said(
            lines_to(
                header_to(Seq::empty(), 0, "marked["@ + text::decimal(marks@.len()) + "]"@),
                1,
                mark_lines(state, marks@),
            ),
        ),
{
    let mut out = Out::new();
    let head = text::cat3("marked[", text::count(marks.len()).as_str(), "]");
    out.header(0, head.as_str());
    let ghost top = out@;
    let ghost all = mark_lines(state, marks@);
    let name = state.name();
    let (flag, value) = state.change();
    assert(all.take(0) =~= Seq::<Seq<char>>::empty());
    for i in 0..marks.len()
        invariant
            all == mark_lines(state, marks@),
            name@ == state_name(state),
            (flag, value) == change_of(state),
            out@ == lines_to(top, 1, all.take(i as int)),
    {
        assert(all.take(i + 1).drop_last() =~= all.take(i as int));
        assert(all[i as int] == mark_line(state, marks@[i as int]));
        let id = text::cat("#", text::integer(marks[i].id).as_str());
        let line = match marks[i].flags {
            None => text::cat(id.as_str(), ": not found"),
            Some(flags) => {
                let now = match flag {
                    MarkFlag::Read => flags.is_read,
                    MarkFlag::Starred => flags.is_starred,
                    MarkFlag::ReadLater => flags.read_later,
                };
                if now == value {
                    text::cat4(id.as_str(), ": already ", name, " (no-op)")
                } else {
                    text::cat3(id.as_str(), ": ", name)
                }
            },
        };
        out.line(1, line.as_str());
    }
    assert(all.take(all.len() as int) =~= all);
    Ok(out.into_string())
}

/// What is said of a view marked as read.
pub fn cmd_mark_all(n: usize) -> (r: Result<String, AxiError>)
    ensures
        outcome(r) == said(
            one_line("marked "@ + text::decimal(n as nat) + " article(s) read"@),
        ),
{
    let line = text::cat3("marked ", text::count(n).as_str(), " article(s) read");
    say(line.as_str())
}

// ───────────────────────────── unsubscribe ─────────────────────────────

/// What an `unsubscribe` leads to.
#[derive(Debug, PartialEq, Eq)]
pub enum Removal {
    /// There is no such feed, which is said so.
    NoOp(String),
    /// The feed is deleted, and then this is said.
    Delete(String),
}

/// What an `unsubscribe` leads to; a feed that is there goes only where that
/// was confirmed.
pub fn cmd_unsubscribe(id: i64, title: Option<&str>, yes: bool) -> (r: Result<Removal, AxiError>)
    ensures
        match title {
            None => r matches Ok(Removal::NoOp(doc)) && doc@ == one_line(
                "feed: #"@ + text::numeral(id as int) + " not found (no-op)"@,
            ),
            Some(title) => if yes {
                r matches Ok(Removal::Delete(doc)) && doc@ == one_line(
                    "unsubscribed: #"@ + text::numeral(id as int) + " "@ + title@,
                )
            } else {
                r matches Err(e) && e@ == unconfirmed(
                    "unsubscribe"@,
                    "papr unsubscribe "@ + text::numeral(id as int),
                )
            },
        },
{
    let number = text::integer(id);
    match title {
        None => {
            let mut out = Out::new();
            let line = text::cat3("feed: #", number.as_str(), " not found (no-op)");
            out.line(0, line.as_str());
            Ok(Removal::NoOp(out.into_string()))
        },
        Some(title) => {
            let rerun = text::cat("papr unsubscribe ", number.as_str());
            match require_yes(yes, "unsubscribe", rerun.as_str()) {
                Ok(_) => {
                    let mut out = Out::new();
                    let line = text::cat4("unsubscribed: #", number.as_str(), " ", title);
                    out.line(0, line.as_str());
                    Ok(Removal::Delete(out.into_string()))
                },
                Err(e) => Err(e),
            }
        },
    }
}

// ───────────────────────────── folders ─────────────────────────────

/// A change of a folder.
#[derive(Debug, PartialEq, Eq)]
pub enum FolderCmd {
    Create { name: String },
    Rename { id: i64, name: String },
    Delete { id: i64, yes: bool },
}

/// Lets a change of a folder through unless it has to be confirmed.
pub fn confirm_folder(cmd: &FolderCmd) -> (r: Result<(), AxiError>)
    ensures
        match *cmd {
            FolderCmd::Delete { id, yes } => (r is Ok <==> yes) && (r matches Err(e) ==> e@
                == unconfirmed("folder delete"@, "papr folder delete "@ + text::numeral(id as int))),
            _ => r is Ok,
        },
{
    match cmd {
        FolderCmd::Delete { id, yes } => {
            let rerun = text::cat("papr folder delete ", text::integer(*id).as_str());
            require_yes(*yes, "folder delete", rerun.as_str())
        },
        _ => Ok(()),
    }
}

/// What is said of a change of a folder; `created` is the id of a new one.
pub fn cmd_folder(cmd: &FolderCmd, created: i64) -> (r: Result<String, AxiError>)
    ensures
        outcome(r) == said(
            one_line(
                match *cmd {
                    FolderCmd::Create { name } => "folder: #"@ + text::numeral(created as int)
                        + " "@ + name@,
                    FolderCmd::Rename { id, name } => "folder: #"@ + text::numeral(id as int)
                        + " renamed to "@ + name@,
                    FolderCmd::Delete { id, .. } => "folder: #"@ + text::numeral(id as int)
                        + " deleted"@,
                },
            ),
        ),
{
    let line = match cmd {
        FolderCmd::Create { name } => text::cat4(
            "folder: #",
            text::integer(created).as_str(),
            " ",
            name.as_str(),
        ),
        FolderCmd::Rename { id, name } => text::cat4(
            "folder: #",
            text::integer(*id).as_str(),
            " renamed to ",
            name.as_str(),
        ),
        FolderCmd::Delete { id, .. } => text::cat3(
            "folder: #",
            text::integer(*id).as_str(),
            " deleted",
        ),
    };
    say(line.as_str())
}

/// The rows of folders.
pub open spec fn folder_rows(folders: Seq<Folder>, feeds: Seq<Feed>) -> Seq<Seq<Seq<char>>> {
    folders.map_values(
        |f: Folder|
            seq![
                text::numeral(f.id as int),
                scalar_of(f.name@),
                text::decimal(feeds_in(feeds, f.id).len()),
            ],
    )
}

/// The view of all folders.
pub open spec fn folders_text(folders: Seq<Folder>, feeds: Seq<Feed>) -> Seq<char> {
    if folders.len() == 0 {
        one_line("folders: 0 defined"@)
    } else {
        let d = one_line("count: "@ + text::decimal(folders.len()) + " folders"@);
        let d = table_to(
            d,
            0,
            "folders"@,
            seq!["id"@, "name"@, "feeds"@],
            folder_rows(folders, feeds),
        );
        help_to(d, seq!["Run `papr list --folder <id>` to list a folder's articles"@])
    }
}

fn count_in(feeds: &Vec<Feed>, folder: i64) -> (r: usize)
    ensures
        r == feeds_in(feeds@, folder).len(),
{
    let mut n: usize = 0;
    assert(feeds@.take(0) =~= Seq::<Feed>::empty());
    for i in 0..feeds.len()
        invariant
            n <= i,
            n == feeds_in(feeds@.take(i as int), folder).len(),
    {
        assert(feeds@.take(i + 1).drop_last() =~= feeds@.take(i as int));
        match feeds[i].folder_id {
            Some(id) => {
                if id == folder {
                    n = n + 1;
                }
            },
            None => {},
        }
    }
    assert(feeds@.take(feeds@.len() as int) =~= feeds@);
    n
}

/// The view of all folders.
pub fn cmd_folders(folders: &Vec<Folder>, feeds: &Vec<Feed>) -> (r: Result<String, AxiError>)
    ensures
        outcome(r) == said(folders_text(folders@, feeds@)),
{
    if folders.len() == 0 {
        return say("folders: 0 defined");
    }
    let mut out = Out::new();
    let line = text::cat3("count: ", text::count(folders.len()).as_str(), " folders");
    out.line(0, line.as_str());
    let mut rows: Vec<Vec<String>> = Vec::new();
    let ghost all = folder_rows(folders@, feeds@);
    assert(cells(rows@) =~= all.take(0));
    for i in 0..folders.len()
        invariant
            all == folder_rows(folders@, feeds@),
            cells(rows@) == all.take(i as int),
    {
        let row = text::list3(
            text::integer(folders[i].id).as_str(),
            scalar(folders[i].name.as_str()).as_str(),
            text::count(count_in(feeds, folders[i].id)).as_str(),
        );
        push_row(&mut rows, row);
        assert(all.take(i + 1) =~= all.take(i as int).push(all[i as int]));
    }
    assert(all.take(all.len() as int) =~= all);
    out.table(0, "folders", &text::list3("id", "name", "feeds"), &rows);
    out.help(&text::list1("Run `papr list --folder <id>` to list a folder's articles"));
    Ok(out.into_string())
}

// ───────────────────────────── feeds ─────────────────────────────

/// A change of a feed.
#[derive(Debug, PartialEq, Eq)]
pub enum FeedCmd {
    Rename { id: i64, title: String },
    Move { id: i64, folder: Option<i64> },
    Interval { id: i64, minutes: Option<i64> },
    Translate { id: i64, on: bool },
}

/// What is said of a change of a feed.
pub fn cmd_feed(cmd: &FeedCmd) -> (r: Result<String, AxiError>)
    ensures
        outcome(r) == said(
            one_line(
                match *cmd {
                    FeedCmd::Rename { id, title } => "feed: #"@ + text::numeral(id as int)
                        + " renamed to "@ + title@,
                    FeedCmd::Move { id, folder: Some(f) } => "feed: #"@ + text::numeral(id as int)
                        + " moved to folder "@ + text::numeral(f as int),
                    FeedCmd::Move { id, folder: None } => "feed: #"@ + text::numeral(id as int)
                        + " moved out of any folder"@,
                    FeedCmd::Interval { id, minutes: Some(m) } => "feed: #"@ + text::numeral(
                        id as int,
                    ) + " refresh interval set to "@ + text::numeral(m as int) + " min"@,
                    FeedCmd::Interval { id, minutes: None } => "feed: #"@ + text::numeral(id as int)
                        + " now follows the global interval"@,
                    FeedCmd::Translate { id, on } => "feed: #"@ + text::numeral(id as int)
                        + " auto-translate "@ + (if on {
                        "on"@
                    } else {
                        "off"@
                    }),
                },
            ),
        ),
{
    let line = match cmd {
        FeedCmd::Rename { id, title } => text::cat4(
            "feed: #",
            text::integer(*id).as_str(),
            " renamed to ",
            title.as_str(),
        ),
        FeedCmd::Move { id, folder } => match folder {
            Some(f) => text::cat4(
                "feed: #",
                text::integer(*id).as_str(),
                " moved to folder ",
                text::integer(*f).as_str(),
            ),
            None => text::cat3(
                "feed: #",
                text::integer(*id).as_str(),
                " moved out of any folder",
            ),
        },
        FeedCmd::Interval { id, minutes } => match minutes {
            Some(m) => text::cat5(
                "feed: #",
                text::integer(*id).as_str(),
                " refresh interval set to ",
                text::integer(*m).as_str(),
                " min",
            ),
            None => text::cat3(
                "feed: #",
                text::integer(*id).as_str(),
                " now follows the global interval",
            ),
        },
        FeedCmd::Translate { id, on } => text::cat4(
            "feed: #",
            text::integer(*id).as_str(),
            " auto-translate ",
            if *on {
                "on"
            } else {
                "off"
            },
        ),
    };
    say(line.as_str())
}

// ───────────────────────────── tags ─────────────────────────────

/// A change of a tag.
#[derive(Debug, PartialEq, Eq)]
pub enum TagCmd {
    Create { name: String },
    Rename { id: i64, name: String },
    Color { id: i64, color: String },
    Delete { id: i64, yes: bool },
    Add { tag_id: i64, article_id: i64 },
    Remove { tag_id: i64, article_id: i64 },
}

/// Lets a change of a tag through unless it has to be confirmed.
pub fn confirm_tag(cmd: &TagCmd) -> (r: Result<(), AxiError>)
    ensures
        match *cmd {
            TagCmd::Delete { id, yes } => (r is Ok <==> yes) && (r matches Err(e) ==> e@
                == unconfirmed("tag delete"@, "papr tag delete "@ + text::numeral(id as int))),
            _ => r is Ok,
        },
{
    match cmd {
        TagCmd::Delete { id, yes } => {
            let rerun = text::cat("papr tag delete ", text::integer(*id).as_str());
            require_yes(*yes, "tag delete", rerun.as_str())
        },
        _ => Ok(()),
    }
}

/// What is said of a change of a tag; `created` is the id of a new one.
pub fn cmd_tag(cmd: &TagCmd, created: i64) -> (r: Result<String, AxiError>)
    ensures
        outcome(r) == said(
            one_line(
                match *cmd {
                    TagCmd::Create { name } => "tag: #"@ + text::numeral(created as int) + " "@
                        + name@,
                    TagCmd::Rename { id, name } => "tag: #"@ + text::numeral(id as int)
                        + " renamed to "@ + name@,
                    TagCmd::Color { id, color } => "tag: #"@ + text::numeral(id as int)
                        + " colour "@ + color@,
                    TagCmd::Delete { id, .. } => "tag: #"@ + text::numeral(id as int)
                        + " deleted"@,
                    TagCmd::Add { tag_id, article_id } => "tagged: article "@ + text::numeral(
                        article_id as int,
                    ) + " += tag "@ + text::numeral(tag_id as int),
                    TagCmd::Remove { tag_id, article_id } => "untagged: article "@ + text::numeral(
                        article_id as int,
                    ) + " -= tag "@ + text::numeral(tag_id as int),
                },
            ),
        ),
{
    let line = match cmd {
        TagCmd::Create { name } => text::cat4(
            "tag: #",
            text::integer(created).as_str(),
            " ",
            name.as_str(),
        ),
        TagCmd::Rename { id, name } => text::cat4(
            "tag: #",
            text::integer(*id).as_str(),
            " renamed to ",
            name.as_str(),
        ),
        TagCmd::Color { id, color } => text::cat4(
            "tag: #",
            text::integer(*id).as_str(),
            " colour ",
            color.as_str(),
        ),
        TagCmd::Delete { id, .. } => text::cat3(
            "tag: #",
            text::integer(*id).as_str(),
            " deleted",
        ),
        TagCmd::Add { tag_id, article_id } => text::cat4(
            "tagged: article ",
            text::integer(*article_id).as_str(),
            " += tag ",
            text::integer(*tag_id).as_str(),
        ),
        TagCmd::Remove { tag_id, article_id } => text::cat4(
            "untagged: article ",
            text::integer(*article_id).as_str(),
            " -= tag ",
            text::integer(*tag_id).as_str(),
        ),
    };
    say(line.as_str())
}

// ───────────────────────────── rules ─────────────────────────────

/// The row of a rule.
pub open spec fn rule_row(r: Rule) -> Seq<Seq<char>> {
    seq![
        text::numeral(r.id as int),
        scalar_of(r.name@),
        if r.enabled {
            "on"@
        } else {
            "off"@
        },
        r.field@,
        scalar_of(r.query@),
        r.action@,
        match r.feed_id {
            Some(f) => text::numeral(f as int),
            None => "all"@,
        },
    ]
}

/// The rows of rules.
pub open spec fn rule_rows(rules: Seq<Rule>) -> Seq<Seq<Seq<char>>> {
    rules.map_values(|r: Rule| rule_row(r))
}

/// The view of all rules.
pub open spec fn rules_text(rules: Seq<Rule>) -> Seq<char> {
    if rules.len() == 0 {
        help_to(
            one_line("rules: 0 defined"@),
            seq!["Run `papr rule create <name> <keywords>` to add one"@],
        )
    } else {
        let d = one_line("count: "@ + text::decimal(rules.len()) + " rules"@);
        let d = table_to(
            d,
            0,
            "rules"@,
            seq!["id"@, "name"@, "enabled"@, "field"@, "query"@, "action"@, "feed"@],
            rule_rows(rules),
        );
        help_to(d, seq!["Run `papr rule disable <id>` to turn a rule off"@])
    }
}

/// The view of all rules.
pub fn cmd_rules(rules: &Vec<Rule>) -> (r: Result<String, AxiError>)
    ensures
        outcome(r) == said(rules_text(rules@)),
{
    let mut out = Out::new();
    if rules.len() == 0 {
        out.line(0, "rules: 0 defined");
        out.help(&text::list1("Run `papr rule create <name> <keywords>` to add one"));
        return Ok(out.into_string());
    }
    let line = text::cat3("count: ", text::count(rules.len()).as_str(), " rules");
    out.line(0, line.as_str());
    let mut rows: Vec<Vec<String>> = Vec::new();
    let ghost all = rule_rows(rules@);
    assert(cells(rows@) =~= all.take(0));
    for i in 0..rules.len()
        invariant
            all == rule_rows(rules@),
            cells(rows@) == all.take(i as int),
    {
        let r = &rules[i];
        let mut row = text::list5(
            text::integer(r.id).as_str(),
            scalar(r.name.as_str()).as_str(),
            if r.enabled {
                "on"
            } else {
                "off"
            },
            r.field.as_str(),
            scalar(r.query.as_str()).as_str(),
        );
        text::append(&mut row, r.action.as_str());
        match r.feed_id {
            Some(f) => {
                text::append(&mut row, text::integer(f).as_str());
            },
            None => {
                text::append(&mut row, "all");
            },
        }
        assert(text::views(row@) =~= rule_row(rules@[i as int]));
        push_row(&mut rows, row);
        assert(all.take(i + 1) =~= all.take(i as int).push(all[i as int]));
    }
    assert(all.take(all.len() as int) =~= all);
    let mut fields = text::list5("id", "name", "enabled", "field", "query");
    text::append(&mut fields, "action");
    text::append(&mut fields, "feed");
    assert(text::views(fields@) =~= seq![
        "id"@,
        "name"@,
        "enabled"@,
        "field"@,
        "query"@,
        "action"@,
        "feed"@,
    ]);
    out.table(0, "rules", &fields, &rows);
    out.help(&text::list1("Run `papr rule disable <id>` to turn a rule off"));
    Ok(out.into_string())
}

/// A change of a rule, but for turning it on or off.
#[derive(Debug, PartialEq, Eq)]
pub enum RuleCmd {
    Create { name: String, query: String, field: String, action: String },
    Delete { id: i64, yes: bool },
}

/// Lets a change of a rule through unless it has to be confirmed.
pub fn confirm_rule(cmd: &RuleCmd) -> (r: Result<(), AxiError>)
    ensures
        match *cmd {
            RuleCmd::Delete { id, yes } => (r is Ok <==> yes) && (r matches Err(e) ==> e@
                == unconfirmed("rule delete"@, "papr rule delete "@ + text::numeral(id as int))),
            _ => r is Ok,
        },
{
    match cmd {
        RuleCmd::Delete { id, yes } => {
            let rerun = text::cat("papr rule delete ", text::integer(*id).as_str());
            require_yes(*yes, "rule delete", rerun.as_str())
        },
        _ => Ok(()),
    }
}

/// What is said of a change of a rule; `created` is the id of a new one.
pub fn cmd_rule(cmd: &RuleCmd, created: i64) -> (r: Result<String, AxiError>)
    ensures
        outcome(r) == said(
            one_line(
                match *cmd {
                    RuleCmd::Create { name, query, field, action } => "rule: #"@ + text::numeral(
                        created as int,
                    ) + " "@ + name@ + " ("@ + field@ + " ~ "@ + query@ + " → "@ + action@ + ")"@,
                    RuleCmd::Delete { id, .. } => "rule: #"@ + text::numeral(id as int)
                        + " deleted"@,
                },
            ),
        ),
{
    let line = match cmd {
        RuleCmd::Create { name, query, field, action } => {
            let mut line = text::cat5(
                "rule: #",
                text::integer(created).as_str(),
                " ",
                name.as_str(),
                " (",
            );
            line.push_str(field.as_str());
            line.push_str(" ~ ");
            line.push_str(query.as_str());
            line.push_str(" → ");
            line.push_str(action.as_str());
            line.push_str(")");
            line
        },
        RuleCmd::Delete { id, .. } => text::cat3(
            "rule: #",
            text::integer(*id).as_str(),
            " deleted",
        ),
    };
    say(line.as_str())
}

/// The first rule with this id.
pub open spec fn rule_with(rules: Seq<Rule>, id: i64) -> Option<Rule>
    decreases rules.len(),
{
    if rules.len() == 0 {
        None
    } else if rules[0].id == id {
        Some(rules[0])
    } else {
        rule_with(rules.drop_first(), id)
    }
}

/// What turning a rule on or off leads to.
#[derive(Debug, PartialEq, Eq)]
pub enum RuleSwitch {
    /// It is so already, which is said.
    NoOp(String),
    /// The rule at this place in the list is stored so, and then this is
    /// said.
    Store(usize, String),
}

/// On or off in words.
pub open spec fn switched(on: bool) -> Seq<char> {
    if on {
        "enabled"@
    } else {
        "disabled"@
    }
}

/// What turning a rule on or off leads to.
pub fn set_rule_enabled(rules: &Vec<Rule>, id: i64, on: bool) -> (r: Result<RuleSwitch, AxiError>)
    ensures
        match rule_with(rules@, id) {
            None => r matches Err(e) && e@ == runtime_error(
                "rule #"@ + text::numeral(id as int) + " not found"@,
            ),
            Some(rule) => if rule.enabled == on {
                r matches Ok(RuleSwitch::NoOp(doc)) && doc@ == one_line(
                    "rule: #"@ + text::numeral(id as int) + " already "@ + switched(on)
                        + " (no-op)"@,
                )
            } else {
                r matches Ok(RuleSwitch::Store(at, doc)) && at < rules@.len()
                    && rules@[at as int] == rule && doc@ == one_line(
                    "rule: #"@ + text::numeral(id as int) + " "@ + switched(on),
                )
            },
        },
{
    let number = text::integer(id);
    let state = if on {
        "enabled"
    } else {
        "disabled"
    };
    assert(rules@.skip(0) =~= rules@);
    for i in 0..rules.len()
        invariant
            number@ == text::numeral(id as int),
            state@ == switched(on),
            rule_with(rules@, id) == rule_with(rules@.skip(i as int), id),
    {
        assert(rules@.skip(i as int)[0] == rules@[i as int]);
        assert(rules@.skip(i as int).drop_first() =~= rules@.skip(i + 1));
        if rules[i].id == id {
            let mut out = Out::new();
            if rules[i].enabled == on {
                let line = text::cat5("rule: #", number.as_str(), " already ", state, " (no-op)");
                out.line(0, line.as_str());
                return Ok(RuleSwitch::NoOp(out.into_string()));
            }
            let line = text::cat4("rule: #", number.as_str(), " ", state);
            out.line(0, line.as_str());
            return Ok(RuleSwitch::Store(i, out.into_string()));
        }
    }
    assert(rules@.skip(rules@.len() as int).len() == 0);
    let message = text::cat3("rule #", number.as_str(), " not found");
    Err(AxiError::runtime(message.as_str()))
}

/// The rules behind one of them having been turned on or off.
pub open spec fn with_rule_switched(rules: Seq<Rule>, id: i64, on: bool) -> Seq<Rule> {
    rules.map_values(
        |r: Rule|
            if r.id == id {
                Rule { enabled: on, ..r }
            } else {
                r
            },
    )
}

/// Turning a rule on or off is idempotent and touches no other rule: behind
/// it the rule is found as it was asked for, so that asking again does
/// nothing, and every other rule is found as before.
pub proof fn law_switching_is_idempotent(rules: Seq<Rule>, id: i64, on: bool, other: i64)
    ensures
        rule_with(rules, id) is Some ==> {
            &&& rule_with(with_rule_switched(rules, id, on), id) is Some
            &&& rule_with(with_rule_switched(rules, id, on), id)->0.enabled == on
        },
        other != id ==> rule_with(with_rule_switched(rules, id, on), other) == rule_with(
            rules,
            other,
        ),
    decreases rules.len(),
{
    if rules.len() > 0 {
        law_switching_is_idempotent(rules.drop_first(), id, on, other);
        let now = with_rule_switched(rules, id, on);
        assert(now.drop_first() =~= with_rule_switched(rules.drop_first(), id, on));
    }
}

// ───────────────────────────── highlights ─────────────────────────────

/// The row of a highlight.
pub open spec fn highlight_row(h: Highlight) -> Seq<Seq<char>> {
    seq![
        text::numeral(h.id as int),
        text::numeral(h.article_id as int),
        scalar_of(capped(h.quote@, 60)),
        h.color@,
        scalar_of(capped(h.note@, 40)),
    ]
}

/// The rows of highlights.
pub open spec fn highlight_rows(items: Seq<Highlight>) -> Seq<Seq<Seq<char>>> {
    items.map_values(|h: Highlight| highlight_row(h))
}

/// The view of highlights.
pub open spec fn highlights_text(items: Seq<Highlight>) -> Seq<char> {
    if items.len() == 0 {
        one_line("highlights: 0 found"@)
    } else {
        let d = one_line("count: "@ + text::decimal(items.len()) + " highlights"@);
        table_to(
            d,
            0,
            "highlights"@,
            seq!["id"@, "article"@, "quote"@, "color"@, "note"@],
            highlight_rows(items),
        )
    }
}

/// The view of highlights.
pub fn cmd_highlights(items: &Vec<Highlight>) -> (r: Result<String, AxiError>)
    ensures
        outcome(r) == said(highlights_text(items@)),
{
    if items.len() == 0 {
        return say("highlights: 0 found");
    }
    let mut out = Out::new();
    let line = text::cat3("count: ", text::count(items.len()).as_str(), " highlights");
    out.line(0, line.as_str());
    let mut rows: Vec<Vec<String>> = Vec::new();
    let ghost all = highlight_rows(items@);
    assert(cells(rows@) =~= all.take(0));
    for i in 0..items.len()
        invariant
            all == highlight_rows(items@),
            cells(rows@) == all.take(i as int),
    {
        let h = &items[i];
        let row = text::list5(
            text::integer(h.id).as_str(),
            text::integer(h.article_id).as_str(),
            scalar(cap(h.quote.as_str(), 60).as_str()).as_str(),
            h.color.as_str(),
            scalar(cap(h.note.as_str(), 40).as_str()).as_str(),
        );
        assert(text::views(row@) =~= highlight_row(items@[i as int]));
        push_row(&mut rows, row);
        assert(all.take(i + 1) =~= all.take(i as int).push(all[i as int]));
    }
    assert(all.take(all.len() as int) =~= all);
    out.table(
        0,
        "highlights",
        &text::list5("id", "article", "quote", "color", "note"),
        &rows,
    );
    Ok(out.into_string())
}

/// A change of a highlight.
#[derive(Debug, PartialEq, Eq)]
pub enum HighlightCmd {
    Create { article: i64 },
    Note { id: i64 },
    Color { id: i64, color: String },
    Delete { id: i64, yes: bool },
}

/// Lets a change of a highlight through unless it has to be confirmed.
pub fn confirm_highlight(cmd: &HighlightCmd) -> (r: Result<(), AxiError>)
    ensures
        match *cmd {
            HighlightCmd::Delete { id, yes } => (r is Ok <==> yes) && (r matches Err(e) ==> e@
                == unconfirmed(
                "highlight delete"@,
                "papr highlight delete "@ + text::numeral(id as int),
            )),
            _ => r is Ok,
        },
{
    match cmd {
        HighlightCmd::Delete { id, yes } => {
            let rerun = text::cat("papr highlight delete ", text::integer(*id).as_str());
            require_yes(*yes, "highlight delete", rerun.as_str())
        },
        _ => Ok(()),
    }
}

/// What is said of a change of a highlight; `created` is the id of a new one.
pub fn cmd_highlight(cmd: &HighlightCmd, created: i64) -> (r: Result<String, AxiError>)
    ensures
        outcome(r) == said(
            one_line(
                match *cmd {
                    HighlightCmd::Create { article } => "highlight: #"@ + text::numeral(
                        created as int,
                    ) + " on article "@ + text::numeral(article as int),
                    HighlightCmd::Note { id } => "highlight: #"@ + text::numeral(id as int)
                        + " note updated"@,
                    HighlightCmd::Color { id, color } => "highlight: #"@ + text::numeral(id as int)
                        + " colour "@ + color@,
                    HighlightCmd::Delete { id, .. } => "highlight: #"@ + text::numeral(id as int)
                        + " deleted"@,
                },
            ),
        ),
{
    let line = match cmd {
        HighlightCmd::Create { article } => text::cat4(
            "highlight: #",
            text::integer(created).as_str(),
            " on article ",
            text::integer(*article).as_str(),
        ),
        HighlightCmd::Note { id } => text::cat3(
            "highlight: #",
            text::integer(*id).as_str(),
            " note updated",
        ),
        HighlightCmd::Color { id, color } => text::cat4(
            "highlight: #",
            text::integer(*id).as_str(),
            " colour ",
            color.as_str(),
        ),
        HighlightCmd::Delete { id, .. } => text::cat3(
            "highlight: #",
            text::integer(*id).as_str(),
            " deleted",
        ),
    };
    say(line.as_str())
}

// ───────────────────────────── newsletters ─────────────────────────────

/// The row of a newsletter source.
pub open spec fn newsletter_row(n: NewsletterSource) -> Seq<Seq<char>> {
    seq![
        text::numeral(n.feed_id as int),
        scalar_of(capped(n.title@, 32)),
        scalar_of(n.host@ + ":"@ + text::decimal(n.port as nat)),
        scalar_of(n.username@),
        scalar_of(n.folder@),
    ]
}

/// The rows of newsletter sources.
pub open spec fn newsletter_rows(sources: Seq<NewsletterSource>) -> Seq<Seq<Seq<char>>> {
    sources.map_values(|n: NewsletterSource| newsletter_row(n))
}

/// The view of all newsletter sources.
pub open spec fn newsletters_text(sources: Seq<NewsletterSource>) -> Seq<char> {
    if sources.len() == 0 {
        help_to(
            one_line("newsletters: 0 configured"@),
            seq![
                "Run `papr newsletter add --title .. --host .. --user .. --password ..` to add one"@,
            ],
        )
    } else {
        let d = one_line("count: "@ + text::decimal(sources.len()) + " newsletter sources"@);
        table_to(
            d,
            0,
            "newsletters"@,
            seq!["feed"@, "title"@, "host"@, "user"@, "folder"@],
            newsletter_rows(sources),
        )
    }
}

/// The view of all newsletter sources.
pub fn cmd_newsletters(sources: &Vec<NewsletterSource>) -> (r: Result<String, AxiError>)
    ensures
        outcome(r) == said(newsletters_text(sources@)),
{
    let mut out = Out::new();
    if sources.len() == 0 {
        out.line(0, "newsletters: 0 configured");
        out.help(
            &text::list1(
                "Run `papr newsletter add --title .. --host .. --user .. --password ..` to add one",
            ),
        );
        return Ok(out.into_string());
    }
    let line = text::cat3("count: ", text::count(sources.len()).as_str(), " newsletter sources");
    out.line(0, line.as_str());
    let mut rows: Vec<Vec<String>> = Vec::new();
    let ghost all = newsletter_rows(sources@);
    assert(cells(rows@) =~= all.take(0));
    for i in 0..sources.len()
        invariant
            all == newsletter_rows(sources@),
            cells(rows@) == all.take(i as int),
    {
        let n = &sources[i];
        let host = text::cat3(n.host.as_str(), ":", text::natural(n.port as u64).as_str());
        let row = text::list5(
            text::integer(n.feed_id).as_str(),
            scalar(cap(n.title.as_str(), 32).as_str()).as_str(),
            scalar(host.as_str()).as_str(),
            scalar(n.username.as_str()).as_str(),
            scalar(n.folder.as_str()).as_str(),
        );
        assert(text::views(row@) =~= newsletter_row(sources@[i as int]));
        push_row(&mut rows, row);
        assert(all.take(i + 1) =~= all.take(i as int).push(all[i as int]));
    }
    assert(all.take(all.len() as int) =~= all);
    out.table(
        0,
        "newsletters",
        &text::list5("feed", "title", "host", "user", "folder"),
        &rows,
    );
    Ok(out.into_string())
}

/// The made-up URL by which a newsletter source is told from others.
pub fn newsletter_url(user: &str, host: &str, folder: &str) -> (r: String)
    ensures
        r@ == "newsletter://"@ + user@ + "@"@ + host@ + "/"@ + folder@,
{
    let mut url = text::cat5("newsletter://", user, "@", host, "/");
    url.push_str(folder);
    url
}

/// What is said of a newsletter source that is there already.
pub fn newsletter_exists(existing: i64) -> (r: Result<String, AxiError>)
    ensures
        outcome(r) == said(
            one_line(
                "newsletter: #"@ + text::numeral(existing as int)
                    + " already configured (no-op)"@,
            ),
        ),
{
    let line = text::cat3(
        "newsletter: #",
        text::integer(existing).as_str(),
        " already configured (no-op)",
    );
    say(line.as_str())
}

/// A change of a newsletter source.
#[derive(Debug, PartialEq, Eq)]
pub enum NewsletterCmd {
    Add { title: String, host: String, port: u16 },
    Remove { feed_id: i64, yes: bool },
}

/// Lets a change of a newsletter source through unless it has to be
/// confirmed.
pub fn confirm_newsletter(cmd: &NewsletterCmd) -> (r: Result<(), AxiError>)
    ensures
        match *cmd {
            NewsletterCmd::Remove { feed_id, yes } => (r is Ok <==> yes) && (r matches Err(e)
                ==> e@ == unconfirmed(
                "newsletter remove"@,
                "papr newsletter remove "@ + text::numeral(feed_id as int),
            )),
            _ => r is Ok,
        },
{
    match cmd {
        NewsletterCmd::Remove { feed_id, yes } => {
            let rerun = text::cat("papr newsletter remove ", text::integer(*feed_id).as_str());
            require_yes(*yes, "newsletter remove", rerun.as_str())
        },
        _ => Ok(()),
    }
}

/// What is said of a change of a newsletter source.
pub open spec fn newsletter_text(cmd: NewsletterCmd, created: int) -> Seq<char> {
    match cmd {
        NewsletterCmd::Add { title, host, port } => {
            let d = header_to(Seq::empty(), 0, "newsletter"@);
            let d = kv_to(d, 1, "feed"@, text::numeral(created));
            let d = kv_to(d, 1, "title"@, title@);
            let d = kv_to(d, 1, "host"@, host@ + ":"@ + text::decimal(port as nat));
            help_to(
                d,
                seq!["Run `papr refresh --feed "@ + text::numeral(created) + "` to poll it now"@],
            )
        },
        NewsletterCmd::Remove { feed_id, .. } => one_line(
            "newsletter: #"@ + text::numeral(feed_id as int) + " removed"@,
        ),
    }
}

/// What is said of a change of a newsletter source; `created` is the feed of
/// a new one.
pub fn cmd_newsletter(cmd: &NewsletterCmd, created: i64) -> (r: Result<String, AxiError>)
    ensures
        outcome(r) == said(newsletter_text(*cmd, created as int)),
{
    match cmd {
        NewsletterCmd::Add { title, host, port } => {
            let number = text::integer(created);
            let mut out = Out::new();
            out.header(0, "newsletter");
            out.kv(1, "feed", number.as_str());
            out.kv(1, "title", title.as_str());
            let place = text::cat3(host.as_str(), ":", text::natural(*port as u64).as_str());
            out.kv(1, "host", place.as_str());
            let hint = text::cat3("Run `papr refresh --feed ", number.as_str(), "` to poll it now");
            out.help(&text::list1(hint.as_str()));
            Ok(out.into_string())
        },
        NewsletterCmd::Remove { feed_id, .. } => {
            let line = text::cat3("newsletter: #", text::integer(*feed_id).as_str(), " removed");
            say(line.as_str())
        },
    }
}

// ───────────────────────── settings, stats, admin ─────────────────────────

/// A setting asked for or changed.
#[derive(Debug, PartialEq, Eq)]
pub enum SettingsCmd {
    Get { key: String },
    Change { key: String, value: String },
}

/// What is said of a setting; `stored` is the value of one that was asked
/// for.
pub fn cmd_settings(cmd: &SettingsCmd, stored: Option<&str>) -> (r: Result<String, AxiError>)
    ensures
        outcome(r) == said(
            match *cmd {
                SettingsCmd::Get { key } => match stored {
                    Some(value) => kv_to(Seq::empty(), 0, key@, value@),
                    None => one_line(key@ + ": (unset)"@),
                },
                SettingsCmd::Change { key, value } => one_line(key@ + ": "@ + value@),
            },
        ),
{
    let mut out = Out::new();
    match cmd {
        SettingsCmd::Get { key } => match stored {
            Some(value) => {
                out.kv(0, key.as_str(), value);
            },
            None => {
                let line = text::cat(key.as_str(), ": (unset)");
                out.line(0, line.as_str());
            },
        },
        SettingsCmd::Change { key, value } => {
            let line = text::cat3(key.as_str(), ": ", value.as_str());
            out.line(0, line.as_str());
        },
    }
    Ok(out.into_string())
}

/// How much the store holds.
#[derive(Debug, PartialEq, Eq)]
pub struct Stats {
    pub bytes: i64,
    pub articles: i64,
    pub feeds: i64,
    pub unread: i64,
    pub starred: i64,
    pub later: i64,
}

/// The view of how much the store holds.
pub open spec fn stats_text(s: Stats) -> Seq<char> {
    let d = header_to(Seq::empty(), 0, "stats"@);
    let d = kv_to(d, 1, "db_size"@, size_text(s.bytes as int));
    let d = kv_to(d, 1, "articles"@, text::numeral(s.articles as int));
    let d = kv_to(d, 1, "feeds"@, text::numeral(s.feeds as int));
    let d = kv_to(d, 1, "unread"@, text::numeral(s.unread as int));
    let d = kv_to(d, 1, "starred"@, text::numeral(s.starred as int));
    kv_to(d, 1, "read_later"@, text::numeral(s.later as int))
}

/// The view of how much the store holds.
pub fn cmd_stats(s: &Stats) -> (r: Result<String, AxiError>)
    ensures
        outcome(r) == said(stats_text(*s)),
{
    let mut out = Out::new();
    out.header(0, "stats");
    out.kv(1, "db_size", human_bytes(s.bytes).as_str());
    out.kv(1, "articles", text::integer(s.articles).as_str());
    out.kv(1, "feeds", text::integer(s.feeds).as_str());
    out.kv(1, "unread", text::integer(s.unread).as_str());
    out.kv(1, "starred", text::integer(s.starred).as_str());
    out.kv(1, "read_later", text::integer(s.later).as_str());
    Ok(out.into_string())
}

/// Maintenance of the store, all of it destructive.
#[derive(Debug, PartialEq, Eq)]
pub enum AdminCmd {
    Cleanup { days: i64, yes: bool },
    Vacuum { yes: bool },
    Reset { yes: bool },
}

/// The refusal of maintenance that was not confirmed.
pub open spec fn admin_refusal(cmd: AdminCmd) -> Option<AxiErrorView> {
    match cmd {
        AdminCmd::Cleanup { days, yes } => if yes {
            None
        } else {
            Some(unconfirmed("cleanup"@, "papr admin cleanup "@ + text::numeral(days as int)))
        },
        AdminCmd::Vacuum { yes } => if yes {
            None
        } else {
            Some(unconfirmed("vacuum"@, "papr admin vacuum"@))
        },
        AdminCmd::Reset { yes } => if yes {
            None
        } else {
            Some(unconfirmed("settings reset"@, "papr admin reset"@))
        },
    }
}

/// Lets maintenance through only where it was confirmed.
pub fn confirm_admin(cmd: &AdminCmd) -> (r: Result<(), AxiError>)
    ensures
        match admin_refusal(*cmd) {
            None => r is Ok,
            Some(refusal) => r matches Err(e) && e@ == refusal,
        },
{
    match cmd {
        AdminCmd::Cleanup { days, yes } => {
            let rerun = text::cat("papr admin cleanup ", text::integer(*days).as_str());
            require_yes(*yes, "cleanup", rerun.as_str())
        },
        AdminCmd::Vacuum { yes } => require_yes(*yes, "vacuum", "papr admin vacuum"),
        AdminCmd::Reset { yes } => require_yes(*yes, "settings reset", "papr admin reset"),
    }
}

/// What is said of maintenance; a cleanup removed so many articles.
pub fn cmd_admin(cmd: &AdminCmd, removed: usize) -> (r: Result<String, AxiError>)
    ensures
        outcome(r) == said(
            one_line(
                match *cmd {
                    AdminCmd::Cleanup { days, .. } => "cleanup: removed "@ + text::decimal(
                        removed as nat,
                    ) + " article(s) older than "@ + text::numeral(days as int) + " days"@,
                    AdminCmd::Vacuum { .. } => "vacuum: database compacted"@,
                    AdminCmd::Reset { .. } => "settings: reset to defaults"@,
                },
            ),
        ),
{
    let line = match cmd {
        AdminCmd::Cleanup { days, .. } => text::cat5(
            "cleanup: removed ",
            text::count(removed).as_str(),
            " article(s) older than ",
            text::integer(*days).as_str(),
            " days",
        ),
        AdminCmd::Vacuum { .. } => "vacuum: database compacted".to_owned(),
        AdminCmd::Reset { .. } => "settings: reset to defaults".to_owned(),
    };
    say(line.as_str())
}

// ───────────────────────── refresh, extract ─────────────────────────

/// What a refresh brought.
pub open spec fn refresh_text(feed: Option<i64>, new_articles: nat) -> Seq<char> {
    let d = header_to(Seq::empty(), 0, "refresh"@);
    let d = kv_to(
        d,
        1,
        "scope"@,
        match feed {
            Some(f) => "feed "@ + text::numeral(f as int),
            None => "all"@,
        },
    );
    let d = kv_to(d, 1, "new"@, text::decimal(new_articles));
    if new_articles > 0 {
        help_to(d, seq!["Run `papr list` to see what's new"@])
    } else {
        d
    }
}

/// What a refresh brought.
pub fn cmd_refresh(feed: Option<i64>, new_articles: usize) -> (r: Result<String, AxiError>)
    ensures
        outcome(r) == said(refresh_text(feed, new_articles as nat)),
{
    let mut out = Out::new();
    out.header(0, "refresh");
    let scope = match feed {
        Some(f) => text::cat("feed ", text::integer(f).as_str()),
        None => "all".to_owned(),
    };
    out.kv(1, "scope", scope.as_str());
    out.kv(1, "new", text::count(new_articles).as_str());
    if new_articles > 0 {
        out.help(&text::list1("Run `papr list` to see what's new"));
    }
    Ok(out.into_string())
}

/// What is said of a refresh while it runs; nothing of a feed that brought
/// nothing.
pub open spec fn progress_of(event: RefreshProgress) -> Option<Seq<char>> {
    match event {
        RefreshProgress::Started { total } => Some(
            "refreshing "@ + text::decimal(total as nat) + " feed(s)…"@,
        ),
        RefreshProgress::FeedDone { feed_id, new_articles, error } => match error {
            Some(e) => Some("  feed "@ + text::numeral(feed_id as int) + ": error — "@ + e@),
            None => if new_articles > 0 {
                Some(
                    "  feed "@ + text::numeral(feed_id as int) + ": "@ + text::decimal(
                        new_articles as nat,
                    ) + " new"@,
                )
            } else {
                None
            },
        },
        RefreshProgress::Finished { new_articles } => Some(
            "done — "@ + text::decimal(new_articles as nat) + " new article(s)"@,
        ),
    }
}

/// What is said of a refresh while it runs.
pub fn progress_line(event: &RefreshProgress) -> (r: Option<String>)
    ensures
        text::view_of(r) == progress_of(*event),
{
    match event {
        RefreshProgress::Started { total } => Some(
            text::cat3("refreshing ", text::count(*total).as_str(), " feed(s)…"),
        ),
        RefreshProgress::FeedDone { feed_id, new_articles, error } => match error {
            Some(e) => Some(
                text::cat4(
                    "  feed ",
                    text::integer(*feed_id).as_str(),
                    ": error — ",
                    e.as_str(),
                ),
            ),
            None => if *new_articles > 0 {
                Some(
                    text::cat5(
                        "  feed ",
                        text::integer(*feed_id).as_str(),
                        ": ",
                        text::count(*new_articles).as_str(),
                        " new",
                    ),
                )
            } else {
                None
            },
        },
        RefreshProgress::Finished { new_articles } => Some(
            text::cat3("done — ", text::count(*new_articles).as_str(), " new article(s)"),
        ),
    }
}

/// The page that an article's full text is extracted from. `url` is the
/// article's URL, where the article is there and has one.
pub fn extract_url(id: i64, url: Option<Option<String>>) -> (r: Result<String, AxiError>)
    ensures
        outcome(r) == (match url {
            None => Err::<Seq<char>, AxiErrorView>(
                runtime_error("article #"@ + text::numeral(id as int) + " not found"@),
            ),
            Some(None) => Err(
                runtime_error(
                    "article #"@ + text::numeral(id as int) + " has no URL to extract"@,
                ),
            ),
            Some(Some(url)) => Ok(url@),
        }),
{
    let number = text::integer(id);
    match url {
        None => {
            let message = text::cat3("article #", number.as_str(), " not found");
            fail(message.as_str())
        },
        Some(url) => match url {
            None => {
                let message = text::cat3("article #", number.as_str(), " has no URL to extract");
                fail(message.as_str())
            },
            Some(url) => Ok(url),
        },
    }
}

/// What is said of an extraction.
pub open spec fn extract_text(id: int, chars: nat) -> Seq<char> {
    let d = header_to(Seq::empty(), 0, "extracted"@);
    let d = kv_to(d, 1, "id"@, text::numeral(id));
    let d = kv_to(d, 1, "chars"@, text::decimal(chars));
    help_to(
        d,
        seq!["Run `papr read "@ + text::numeral(id) + " --full` to read the extracted text"@],
    )
}

/// What is said of an extraction that has so many characters of text.
pub fn report_extract(id: i64, chars: usize) -> (r: Result<String, AxiError>)
    ensures
        outcome(r) == said(extract_text(id as int, chars as nat)),
{
    let number = text::integer(id);
    let mut out = Out::new();
    out.header(0, "extracted");
    out.kv(1, "id", number.as_str());
    out.kv(1, "chars", text::count(chars).as_str());
    let hint = text::cat3("Run `papr read ", number.as_str(), " --full` to read the extracted text");
    out.help(&text::list1(hint.as_str()));
    Ok(out.into_string())
}

/// What is said of the extraction of this cleaned HTML.
pub fn cmd_extract(id: i64, cleaned: &str) -> (r: Result<String, AxiError>)
    ensures
        outcome(r) == said(
            extract_text(id as int, collapsed_text(fragment_edges(cleaned@)).len()),
        ),
{
    let plain = text::chars_of(html_to_text(cleaned).as_str());
    report_extract(id, plain.len())
}

// ───────────────────────────── laws ─────────────────────────────

/// Each mark changes its own flag and no other, to what it says.
pub proof fn law_marks_change_their_flag(flags: ArticleFlags)
    ensures
        marked(flags, MarkState::Read) == (ArticleFlags { is_read: true, ..flags }),
        marked(flags, MarkState::Unread) == (ArticleFlags { is_read: false, ..flags }),
        marked(flags, MarkState::Star) == (ArticleFlags { is_starred: true, ..flags }),
        marked(flags, MarkState::Unstar) == (ArticleFlags { is_starred: false, ..flags }),
        marked(flags, MarkState::Later) == (ArticleFlags { read_later: true, ..flags }),
        marked(flags, MarkState::Unlater) == (ArticleFlags { read_later: false, ..flags }),
        change_of(MarkState::Read) == (MarkFlag::Read, true),
        change_of(MarkState::Unread) == (MarkFlag::Read, false),
        change_of(MarkState::Star) == (MarkFlag::Starred, true),
        change_of(MarkState::Unstar) == (MarkFlag::Starred, false),
        change_of(MarkState::Later) == (MarkFlag::ReadLater, true),
        change_of(MarkState::Unlater) == (MarkFlag::ReadLater, false),
        state_name(MarkState::Read) == "read"@,
        state_name(MarkState::Unread) == "unread"@,
        state_name(MarkState::Star) == "star"@,
        state_name(MarkState::Unstar) == "unstar"@,
        state_name(MarkState::Later) == "later"@,
        state_name(MarkState::Unlater) == "unlater"@,
{
}

/// Of each marked article it is said, in order and under its own id, whether
/// there was one, whether it was marked so already, and else that it is now.
pub proof fn law_every_mark_is_reported(state: MarkState, marks: Seq<Marking>, i: int)
    requires
        0 <= i < marks.len(),
    ensures
        mark_lines(state, marks).len() == marks.len(),
        marks[i].flags is None ==> mark_lines(state, marks)[i] == "#"@ + text::numeral(
            marks[i].id as int,
        ) + ": not found"@,
        marks[i].flags matches Some(flags) ==> marked(flags, state) == flags ==> mark_lines(
            state,
            marks,
        )[i] == "#"@ + text::numeral(marks[i].id as int) + ": already "@ + state_name(state)
            + " (no-op)"@,
        marks[i].flags matches Some(flags) ==> marked(flags, state) != flags ==> mark_lines(
            state,
            marks,
        )[i] == "#"@ + text::numeral(marks[i].id as int) + ": "@ + state_name(state),
{
}

/// A rule is found by its id, the first where several have it.
pub proof fn law_rules_are_found(rules: Seq<Rule>, r: Rule, id: i64)
    ensures
        rule_with(Seq::empty(), id) is None,
        rule_with(seq![r] + rules, r.id) == Some(r),
        r.id != id ==> rule_with(seq![r] + rules, id) == rule_with(rules, id),
        switched(true) == "enabled"@,
        switched(false) == "disabled"@,
{
    assert((seq![r] + rules)[0] == r);
    assert((seq![r] + rules).drop_first() =~= rules);
}

/// Maintenance is refused exactly where it was not confirmed, and the refusal
/// names the command to confirm.
pub proof fn law_maintenance_is_confirmed(days: i64)
    ensures
        admin_refusal(AdminCmd::Cleanup { days, yes: true }) is None,
        admin_refusal(AdminCmd::Vacuum { yes: true }) is None,
        admin_refusal(AdminCmd::Reset { yes: true }) is None,
        admin_refusal(AdminCmd::Cleanup { days, yes: false }) == Some(
            unconfirmed("cleanup"@, "papr admin cleanup "@ + text::numeral(days as int)),
        ),
        admin_refusal(AdminCmd::Vacuum { yes: false }) == Some(
            unconfirmed("vacuum"@, "papr admin vacuum"@),
        ),
        admin_refusal(AdminCmd::Reset { yes: false }) == Some(
            unconfirmed("settings reset"@, "papr admin reset"@),
        ),
{
}

/// While a refresh runs it is said how many feeds it is of, what each feed
/// brought or why it failed, and what all of it brought; nothing is said of a
/// feed that brought nothing.
pub proof fn law_progress_is_said(
    total: usize,
    feed_id: i64,
    new_articles: usize,
    error: String,
)
    ensures
        progress_of(RefreshProgress::Started { total }) == Some(
            "refreshing "@ + text::decimal(total as nat) + " feed(s)…"@,
        ),
        progress_of(RefreshProgress::FeedDone { feed_id, new_articles, error: Some(error) })
            == Some("  feed "@ + text::numeral(feed_id as int) + ": error — "@ + error@),
        new_articles > 0 ==> progress_of(
            RefreshProgress::FeedDone { feed_id, new_articles, error: None },
        ) == Some(
            "  feed "@ + text::numeral(feed_id as int) + ": "@ + text::decimal(new_articles as nat)
                + " new"@,
        ),
        progress_of(RefreshProgress::FeedDone { feed_id, new_articles: 0, error: None }) is None,
        progress_of(RefreshProgress::Finished { new_articles }) == Some(
            "done — "@ + text::decimal(new_articles as nat) + " new article(s)"@,
        ),
{
}

proof fn lemma_head(key: Seq<char>)
    ensures
        header_to(Seq::empty(), 0, key) == key + ":\n"@,
{
    crate::toon::law_documents_grow_by_lines(Seq::empty(), 0, key, key, key);
    assert(header_to(Seq::empty(), 0, key) =~= key + ":\n"@);
}

/// The view of the store says its size and how many articles, feeds, unread,
/// starred and kept articles it has, each under its name.
pub proof fn law_stats_are_told_apart(s: Stats)
    ensures
        stats_text(s) == "stats"@ + ":\n"@ + ("  "@ + "db_size"@ + ": "@ + scalar_of(
            size_text(s.bytes as int),
        ) + "\n"@) + ("  "@ + "articles"@ + ": "@ + scalar_of(text::numeral(s.articles as int))
            + "\n"@) + ("  "@ + "feeds"@ + ": "@ + scalar_of(text::numeral(s.feeds as int)) + "\n"@)
            + ("  "@ + "unread"@ + ": "@ + scalar_of(text::numeral(s.unread as int)) + "\n"@) + (
        "  "@ + "starred"@ + ": "@ + scalar_of(text::numeral(s.starred as int)) + "\n"@) + ("  "@
            + "read_later"@ + ": "@ + scalar_of(text::numeral(s.later as int)) + "\n"@),
{
    lemma_head("stats"@);
    let d0 = header_to(Seq::empty(), 0, "stats"@);
    crate::toon::law_nested_values(d0, "db_size"@, size_text(s.bytes as int));
    let d1 = kv_to(d0, 1, "db_size"@, size_text(s.bytes as int));
    crate::toon::law_nested_values(d1, "articles"@, text::numeral(s.articles as int));
    let d2 = kv_to(d1, 1, "articles"@, text::numeral(s.articles as int));
    crate::toon::law_nested_values(d2, "feeds"@, text::numeral(s.feeds as int));
    let d3 = kv_to(d2, 1, "feeds"@, text::numeral(s.feeds as int));
    crate::toon::law_nested_values(d3, "unread"@, text::numeral(s.unread as int));
    let d4 = kv_to(d3, 1, "unread"@, text::numeral(s.unread as int));
    crate::toon::law_nested_values(d4, "starred"@, text::numeral(s.starred as int));
    let d5 = kv_to(d4, 1, "starred"@, text::numeral(s.starred as int));
    crate::toon::law_nested_values(d5, "read_later"@, text::numeral(s.later as int));
}

/// A refresh says what it was of and how many new articles came, and points to
/// them where there are any.
pub proof fn law_refreshes_say_what_came(feed: Option<i64>, n: nat)
    ensures
        refresh_text(feed, n) == "refresh"@ + ":\n"@ + ("  "@ + "scope"@ + ": "@ + scalar_of(
            match feed {
                Some(f) => "feed "@ + text::numeral(f as int),
                None => "all"@,
            },
        ) + "\n"@) + ("  "@ + "new"@ + ": "@ + scalar_of(text::decimal(n)) + "\n"@) + help_to(
            Seq::empty(),
            if n > 0 {
                seq!["Run `papr list` to see what's new"@]
            } else {
                Seq::empty()
            },
        ),
{
    lemma_head("refresh"@);
    let scope = match feed {
        Some(f) => "feed "@ + text::numeral(f as int),
        None => "all"@,
    };
    let d0 = header_to(Seq::empty(), 0, "refresh"@);
    crate::toon::law_nested_values(d0, "scope"@, scope);
    let d1 = kv_to(d0, 1, "scope"@, scope);
    crate::toon::law_nested_values(d1, "new"@, text::decimal(n));
    let d2 = kv_to(d1, 1, "new"@, text::decimal(n));
    let none = Seq::<char>::empty();
    crate::toon::law_documents_only_grow(
        d2,
        0,
        none,
        none,
        seq!["Run `papr list` to see what's new"@],
        Seq::empty(),
    );
    assert(d2 + none =~= d2);
}

/// An extraction says of which article it was and how much text came, and how
/// to read it.
pub proof fn law_extractions_say_what_came(id: int, chars: nat)
    ensures
        extract_text(id, chars) == "extracted"@ + ":\n"@ + ("  "@ + "id"@ + ": "@ + scalar_of(
            text::numeral(id),
        ) + "\n"@) + ("  "@ + "chars"@ + ": "@ + scalar_of(text::decimal(chars)) + "\n"@) + help_to(
            Seq::empty(),
            seq!["Run `papr read "@ + text::numeral(id) + " --full` to read the extracted text"@],
        ),
{
    lemma_head("extracted"@);
    let d0 = header_to(Seq::empty(), 0, "extracted"@);
    crate::toon::law_nested_values(d0, "id"@, text::numeral(id));
    let d1 = kv_to(d0, 1, "id"@, text::numeral(id));
    crate::toon::law_nested_values(d1, "chars"@, text::decimal(chars));
    let d2 = kv_to(d1, 1, "chars"@, text::decimal(chars));
    let none = Seq::<char>::empty();
    crate::toon::law_documents_only_grow(
        d2,
        0,
        none,
        none,
        seq!["Run `papr read "@ + text::numeral(id) + " --full` to read the extracted text"@],
        Seq::empty(),
    );
}

/// A new newsletter source is said with its feed, its title and where it is
/// polled, and one that was removed by its feed.
pub proof fn law_newsletters_are_said(
    title: String,
    host: String,
    port: u16,
    feed_id: i64,
    yes: bool,
    created: int,
)
    ensures
        newsletter_text(NewsletterCmd::Add { title, host, port }, created) == "newsletter"@
            + ":\n"@ + ("  "@ + "feed"@ + ": "@ + scalar_of(text::numeral(created)) + "\n"@) + (
        "  "@ + "title"@ + ": "@ + scalar_of(title@) + "\n"@) + ("  "@ + "host"@ + ": "@
            + scalar_of(host@ + ":"@ + text::decimal(port as nat)) + "\n"@) + help_to(
            Seq::empty(),
            seq!["Run `papr refresh --feed "@ + text::numeral(created) + "` to poll it now"@],
        ),
        newsletter_text(NewsletterCmd::Remove { feed_id, yes }, created) == "newsletter: #"@
            + text::numeral(feed_id as int) + " removed"@ + "\n"@,
{
    lemma_head("newsletter"@);
    let d0 = header_to(Seq::empty(), 0, "newsletter"@);
    crate::toon::law_nested_values(d0, "feed"@, text::numeral(created));
    let d1 = kv_to(d0, 1, "feed"@, text::numeral(created));
    crate::toon::law_nested_values(d1, "title"@, title@);
    let d2 = kv_to(d1, 1, "title"@, title@);
    let place = host@ + ":"@ + text::decimal(port as nat);
    crate::toon::law_nested_values(d2, "host"@, place);
    let d3 = kv_to(d2, 1, "host"@, place);
    let none = Seq::<char>::empty();
    crate::toon::law_documents_only_grow(
        d3,
        0,
        none,
        none,
        seq!["Run `papr refresh --feed "@ + text::numeral(created) + "` to poll it now"@],
        Seq::empty(),
    );
    crate::cli::law_store_failures_keep_their_words(
        "newsletter: #"@ + text::numeral(feed_id as int) + " removed"@,
    );
}

/// Every folder is listed, in order, with its id, its name and how many feeds are
/// in it.
pub proof fn law_every_folder_is_listed(folders: Seq<Folder>, feeds: Seq<Feed>)
    ensures
        folders.len() == 0 ==> folders_text(folders, feeds) == "folders: 0 defined"@ + "\n"@,
        folders.len() > 0 ==> folders_text(folders, feeds) == "count: "@ + text::decimal(folders.len())
            + " folders"@ + "\n"@ + table_to(
            Seq::empty(),
            0,
            "folders"@,
            seq!["id"@, "name"@, "feeds"@],
            Seq::new(
                folders.len(),
                |i: int|
                    seq![
                        text::numeral(folders[i].id as int),
                        scalar_of(folders[i].name@),
                        text::decimal(
                            feeds.filter(
                                |f: Feed| f.folder_id == Some(folders[i].id),
                            ).len(),
                        ),
                    ],
            ),
        ) + help_to(Seq::empty(), seq!["Run `papr list --folder <id>` to list a folder's articles"@]),
{
    let none = Seq::<char>::empty();
    if folders.len() == 0 {
        crate::cli::law_store_failures_keep_their_words("folders: 0 defined"@);
    } else {
        let line = "count: "@ + text::decimal(folders.len()) + " folders"@;
        crate::cli::law_store_failures_keep_their_words(line);
        let fields = seq!["id"@, "name"@, "feeds"@];
        assert forall|i: int| 0 <= i < folders.len() implies feeds_in(
            feeds,
            (#[trigger] folders[i]).id,
        ) == feeds.filter(|f: Feed| f.folder_id == Some(folders[i].id)) by {
            crate::commands::lemma_feeds_in(feeds, folders[i].id);
        }
        let rows = folder_rows(folders, feeds);
        let d = table_to(one_line(line), 0, "folders"@, fields, rows);
        crate::toon::law_documents_only_grow(one_line(line), 0, "folders"@, none, fields, rows);
        let hint = seq!["Run `papr list --folder <id>` to list a folder's articles"@];
        crate::toon::law_documents_only_grow(d, 0, none, none, hint, Seq::empty());
        assert(rows =~= Seq::new(
            folders.len(),
            |i: int|
                seq![
                    text::numeral(folders[i].id as int),
                        scalar_of(folders[i].name@),
                        text::decimal(
                            feeds.filter(
                                |f: Feed| f.folder_id == Some(folders[i].id),
                            ).len(),
                        ),
                ],
        ));
    }
}

/// Every rule is listed, in order, with what it looks for and where, what it does,
/// and whether it is on.
pub proof fn law_every_rule_is_listed(rules: Seq<Rule>)
    ensures
        rules.len() == 0 ==> rules_text(rules) == "rules: 0 defined"@ + "\n"@ + help_to(Seq::empty(), seq!["Run `papr rule create <name> <keywords>` to add one"@]),
        rules.len() > 0 ==> rules_text(rules) == "count: "@ + text::decimal(rules.len())
            + " rules"@ + "\n"@ + table_to(
            Seq::empty(),
            0,
            "rules"@,
            seq!["id"@, "name"@, "enabled"@, "field"@, "query"@, "action"@, "feed"@],
            Seq::new(
                rules.len(),
                |i: int|
                    seq![
                        text::numeral(rules[i].id as int),
                        scalar_of(rules[i].name@),
                        if rules[i].enabled {
                            "on"@
                        } else {
                            "off"@
                        },
                        rules[i].field@,
                        scalar_of(rules[i].query@),
                        rules[i].action@,
                        match rules[i].feed_id {
                            Some(f) => text::numeral(f as int),
                            None => "all"@,
                        },
                    ],
            ),
        ) + help_to(Seq::empty(), seq!["Run `papr rule disable <id>` to turn a rule off"@]),
{
    let none = Seq::<char>::empty();
    if rules.len() == 0 {
        crate::cli::law_store_failures_keep_their_words("rules: 0 defined"@);
        crate::toon::law_documents_only_grow(
            one_line("rules: 0 defined"@),
            0,
            none,
            none,
            seq!["Run `papr rule create <name> <keywords>` to add one"@],
            Seq::empty(),
        );
    } else {
        let line = "count: "@ + text::decimal(rules.len()) + " rules"@;
        crate::cli::law_store_failures_keep_their_words(line);
        let fields = seq!["id"@, "name"@, "enabled"@, "field"@, "query"@, "action"@, "feed"@];
        let rows = rule_rows(rules);
        let d = table_to(one_line(line), 0, "rules"@, fields, rows);
        crate::toon::law_documents_only_grow(one_line(line), 0, "rules"@, none, fields, rows);
        let hint = seq!["Run `papr rule disable <id>` to turn a rule off"@];
        crate::toon::law_documents_only_grow(d, 0, none, none, hint, Seq::empty());
        let shown = Seq::new(
            rules.len(),
            |i: int|
                seq![
                    text::numeral(rules[i].id as int),
                        scalar_of(rules[i].name@),
                        if rules[i].enabled {
                            "on"@
                        } else {
                            "off"@
                        },
                        rules[i].field@,
                        scalar_of(rules[i].query@),
                        rules[i].action@,
                        match rules[i].feed_id {
                            Some(f) => text::numeral(f as int),
                            None => "all"@,
                        },
                ],
        );
        assert forall|i: int| 0 <= i < rules.len() implies rows[i] == shown[i] by {
            assert(rows[i] =~= shown[i]);
        }
        assert(rows =~= shown);
    }
}

/// Every highlight is listed, in order, with its article, its quote, its colour and
/// its note.
pub proof fn law_every_highlight_is_listed(items: Seq<Highlight>)
    ensures
        items.len() == 0 ==> highlights_text(items) == "highlights: 0 found"@ + "\n"@,
        items.len() > 0 ==> highlights_text(items) == "count: "@ + text::decimal(items.len())
            + " highlights"@ + "\n"@ + table_to(
            Seq::empty(),
            0,
            "highlights"@,
            seq!["id"@, "article"@, "quote"@, "color"@, "note"@],
            Seq::new(
                items.len(),
                |i: int|
                    seq![
                        text::numeral(items[i].id as int),
                        text::numeral(items[i].article_id as int),
                        scalar_of(capped(items[i].quote@, 60)),
                        items[i].color@,
                        scalar_of(capped(items[i].note@, 40)),
                    ],
            ),
        ),
{
    let none = Seq::<char>::empty();
    if items.len() == 0 {
        crate::cli::law_store_failures_keep_their_words("highlights: 0 found"@);
    } else {
        let line = "count: "@ + text::decimal(items.len()) + " highlights"@;
        crate::cli::law_store_failures_keep_their_words(line);
        let fields = seq!["id"@, "article"@, "quote"@, "color"@, "note"@];
        let rows = highlight_rows(items);
        let d = table_to(one_line(line), 0, "highlights"@, fields, rows);
        crate::toon::law_documents_only_grow(one_line(line), 0, "highlights"@, none, fields, rows);
        assert(rows =~= Seq::new(
            items.len(),
            |i: int|
                seq![
                    text::numeral(items[i].id as int),
                        text::numeral(items[i].article_id as int),
                        scalar_of(capped(items[i].quote@, 60)),
                        items[i].color@,
                        scalar_of(capped(items[i].note@, 40)),
                ],
        ));
    }
}

/// Every newsletter source is listed, in order, with its feed, its title and its
/// mailbox.
pub proof fn law_every_newsletter_is_listed(sources: Seq<NewsletterSource>)
    ensures
        sources.len() == 0 ==> newsletters_text(sources) == "newsletters: 0 configured"@ + "\n"@ + help_to(Seq::empty(), seq!["Run `papr newsletter add --title .. --host .. --user .. --password ..` to add one"@]),
        sources.len() > 0 ==> newsletters_text(sources) == "count: "@ + text::decimal(sources.len())
            + " newsletter sources"@ + "\n"@ + table_to(
            Seq::empty(),
            0,
            "newsletters"@,
            seq!["feed"@, "title"@, "host"@, "user"@, "folder"@],
            Seq::new(
                sources.len(),
                |i: int|
                    seq![
                        text::numeral(sources[i].feed_id as int),
                        scalar_of(capped(sources[i].title@, 32)),
                        scalar_of(sources[i].host@ + ":"@ + text::decimal(sources[i].port as nat)),
                        scalar_of(sources[i].username@),
                        scalar_of(sources[i].folder@),
                    ],
            ),
        ),
{
    let none = Seq::<char>::empty();
    if sources.len() == 0 {
        crate::cli::law_store_failures_keep_their_words("newsletters: 0 configured"@);
        crate::toon::law_documents_only_grow(
            one_line("newsletters: 0 configured"@),
            0,
            none,
            none,
            seq!["Run `papr newsletter add --title .. --host .. --user .. --password ..` to add one"@],
            Seq::empty(),
        );
    } else {
        let line = "count: "@ + text::decimal(sources.len()) + " newsletter sources"@;
        crate::cli::law_store_failures_keep_their_words(line);
        let fields = seq!["feed"@, "title"@, "host"@, "user"@, "folder"@];
        let rows = newsletter_rows(sources);
        let d = table_to(one_line(line), 0, "newsletters"@, fields, rows);
        crate::toon::law_documents_only_grow(one_line(line), 0, "newsletters"@, none, fields, rows);
        assert(rows =~= Seq::new(
            sources.len(),
            |i: int|
                seq![
                    text::numeral(sources[i].feed_id as int),
                        scalar_of(capped(sources[i].title@, 32)),
                        scalar_of(sources[i].host@ + ":"@ + text::decimal(sources[i].port as nat)),
                        scalar_of(sources[i].username@),
                        scalar_of(sources[i].folder@),
                ],
        ));
    }
}

} // verus!
