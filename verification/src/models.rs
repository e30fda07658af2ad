//! The records that the library hands to the local store and is handed by it.

use vstd::prelude::*;
use crate::text;

verus! {

/// A local read or starred change that waits to be pushed to the server.
#[derive(Debug, PartialEq, Eq)]
pub struct SyncEntry {
    pub article_id: i64,
    pub remote_id: String,
    pub field: String,
    pub value: bool,
}

impl SyncEntry {
    /// Another entry that says the same.
    pub fn copy(&self) -> (r: SyncEntry)
        ensures
            r == *self,
    {
        SyncEntry {
            article_id: self.article_id,
            remote_id: self.remote_id.clone(),
            field: self.field.clone(),
            value: self.value,
        }
    }
}

/// An article to be stored under a feed.
#[derive(Debug, PartialEq, Eq)]
pub struct NewArticle {
    pub guid: String,
    pub url: Option<String>,
    pub title: String,
    pub author: Option<String>,
    pub summary: Option<String>,
    pub content_html: Option<String>,
    pub body_text: String,
    pub image_url: Option<String>,
    pub published_at: Option<String>,
    pub enclosures: Vec<String>,
}

/// What a [`NewArticle`] holds.
pub struct NewArticleView {
    pub guid: Seq<char>,
    pub url: Option<Seq<char>>,
    pub title: Seq<char>,
    pub author: Option<Seq<char>>,
    pub summary: Option<Seq<char>>,
    pub content_html: Option<Seq<char>>,
    pub body_text: Seq<char>,
    pub image_url: Option<Seq<char>>,
    pub published_at: Option<Seq<char>>,
    pub enclosures: Seq<Seq<char>>,
}

impl View for NewArticle {
    type V = NewArticleView;

    open spec fn view(&self) -> NewArticleView {
        NewArticleView {
            guid: self.guid@,
            url: text::view_of(self.url),
            title: self.title@,
            author: text::view_of(self.author),
            summary: text::view_of(self.summary),
            content_html: text::view_of(self.content_html),
            body_text: self.body_text@,
            image_url: text::view_of(self.image_url),
            published_at: text::view_of(self.published_at),
            enclosures: text::views(self.enclosures@),
        }
    }
}

/// An article in a list.
#[derive(Debug, PartialEq, Eq)]
pub struct ArticleSummary {
    pub id: i64,
    pub feed_title: String,
    pub title: String,
    pub is_read: bool,
    pub is_starred: bool,
    pub read_later: bool,
    pub published_at: Option<String>,
}

/// An article on its own. `tags` are the names of its tags.
#[derive(Debug, PartialEq, Eq)]
pub struct ArticleDetail {
    pub id: i64,
    pub feed_title: String,
    pub title: String,
    pub author: Option<String>,
    pub url: Option<String>,
    pub published_at: Option<String>,
    pub is_read: bool,
    pub is_starred: bool,
    pub read_later: bool,
    pub tags: Vec<String>,
}

/// A subscribed feed.
#[derive(Debug, PartialEq, Eq)]
pub struct Feed {
    pub id: i64,
    pub title: String,
    pub unread_count: i64,
    pub source_type: String,
    pub folder_id: Option<i64>,
}

/// A folder of feeds.
#[derive(Debug, PartialEq, Eq)]
pub struct Folder {
    pub id: i64,
    pub name: String,
}

/// A tag.
#[derive(Debug, PartialEq, Eq)]
pub struct Tag {
    pub id: i64,
    pub name: String,
    pub article_count: i64,
}

/// A filter rule.
#[derive(Debug, PartialEq, Eq)]
pub struct Rule {
    pub id: i64,
    pub name: String,
    pub enabled: bool,
    pub feed_id: Option<i64>,
    pub field: String,
    pub query: String,
    pub action: String,
}

/// A highlight: a quote of an article, with what stands around it there, and
/// the reader's note on it.
#[derive(Debug, PartialEq, Eq)]
pub struct Highlight {
    pub id: i64,
    pub article_id: i64,
    pub quote: String,
    pub prefix: String,
    pub suffix: String,
    pub text_offset: i64,
    pub color: String,
    pub note: String,
    pub created_at: String,
}

/// An email-newsletter source.
#[derive(Debug, PartialEq, Eq)]
pub struct NewsletterSource {
    pub feed_id: i64,
    pub title: String,
    pub host: String,
    pub port: u16,
    pub username: String,
    pub folder: String,
}

/// Which articles are meant: those of this feed, of the feeds in this folder,
/// with this tag, that are starred and that are kept for later, as far as each
/// is asked for. What is asked for combines; where nothing is, all are meant.
#[derive(Clone, Copy, Debug, PartialEq, Eq, Structural)]
pub struct ArticleQuery {
    pub feed: Option<i64>,
    pub folder: Option<i64>,
    pub tag: Option<i64>,
    pub starred: bool,
    pub later: bool,
}

/// A stored article says what it holds, each under its own name.
pub proof fn law_articles_say_what_they_hold(a: NewArticle)
    ensures
        a@.guid == a.guid@,
        a@.url == text::view_of(a.url),
        a@.title == a.title@,
        a@.author == text::view_of(a.author),
        a@.summary == text::view_of(a.summary),
        a@.content_html == text::view_of(a.content_html),
        a@.body_text == a.body_text@,
        a@.image_url == text::view_of(a.image_url),
        a@.published_at == text::view_of(a.published_at),
        a@.enclosures == text::views(a.enclosures@),
{
}

} // verus!
