//! OPML import and export: the portable subscription list.

use vstd::prelude::*;
use crate::error::{AppError, ErrorView};
use crate::text;

verus! {

/// A subscription read out of an OPML file.
#[derive(Debug, PartialEq, Eq)]
pub struct ImportedFeed {
    pub feed_url: String,
    pub title: String,
    pub folder: Option<String>,
}

/// What an [`ImportedFeed`] says.
pub struct ImportedFeedView {
    pub feed_url: Seq<char>,
    pub title: Seq<char>,
    pub folder: Option<Seq<char>>,
}

impl View for ImportedFeed {
    type V = ImportedFeedView;

    open spec fn view(&self) -> ImportedFeedView {
        ImportedFeedView {
            feed_url: self.feed_url@,
            title: self.title@,
            folder: text::view_of(self.folder),
        }
    }
}

/// What a list of subscriptions says.
pub open spec fn feed_views(v: Seq<ImportedFeed>) -> Seq<ImportedFeedView> {
    v.map_values(|f: ImportedFeed| f@)
}

// ───────────────────────────── outlines ─────────────────────────────

/// An entry of an OPML file, as far as it is read here: a feed where it has
/// a URL, a folder where it has none and entries inside.
#[derive(Debug, PartialEq, Eq)]
pub struct Entry {
    pub text: String,
    pub title: Option<String>,
    pub xml_url: Option<String>,
    pub entries: Vec<Entry>,
}

/// What an [`Entry`] holds.
#[verifier::ext_equal]
pub struct EntryTree {
    pub text: Seq<char>,
    pub title: Option<Seq<char>>,
    pub xml_url: Option<Seq<char>>,
    pub entries: Seq<EntryTree>,
}

impl Entry {
    /// The tree an entry stands for.
    pub open spec fn tree(self) -> EntryTree
        decreases self,
    {
        EntryTree {
            text: self.text@,
            title: text::view_of(self.title),
            xml_url: text::view_of(self.xml_url),
            entries: Seq::new(
                self.entries@.len(),
                |i: int|
                    if 0 <= i < self.entries@.len() {
                        self.entries@[i].tree()
                    } else {
                        arbitrary()
                    },
            ),
        }
    }
}

impl View for Entry {
    type V = EntryTree;

    open spec fn view(&self) -> EntryTree {
        self.tree()
    }
}

/// What a list of entries holds.
pub open spec fn entry_trees(v: Seq<Entry>) -> Seq<EntryTree> {
    v.map_values(|e: Entry| e@)
}

/// The attributes of an outline that are neither read nor set here.
#[verifier::ext_equal]
pub struct OtherAttributes {
    pub is_comment: Option<bool>,
    pub is_breakpoint: Option<bool>,
    pub created: Option<Seq<char>>,
    pub category: Option<Seq<char>>,
    pub description: Option<Seq<char>>,
    pub html_url: Option<Seq<char>>,
    pub language: Option<Seq<char>>,
    pub version: Option<Seq<char>>,
    pub url: Option<Seq<char>>,
}

/// None of these attributes.
pub open spec fn no_others() -> OtherAttributes {
    OtherAttributes {
        is_comment: None,
        is_breakpoint: None,
        created: None,
        category: None,
        description: None,
        html_url: None,
        language: None,
        version: None,
        url: None,
    }
}

/// An outline of an OPML file, with all that can be written of it.
#[verifier::ext_equal]
pub struct OutlineTree {
    pub text: Seq<char>,
    pub title: Option<Seq<char>>,
    pub kind: Option<Seq<char>>,
    pub xml_url: Option<Seq<char>>,
    pub others: OtherAttributes,
    pub outlines: Seq<OutlineTree>,
}

/// What is read of an outline: its text, title and URL, and the outlines
/// inside it.
pub open spec fn entry_of(o: OutlineTree) -> EntryTree
    decreases o,
{
    EntryTree {
        text: o.text,
        title: o.title,
        xml_url: o.xml_url,
        entries: Seq::new(
            o.outlines.len(),
            |i: int|
                if 0 <= i < o.outlines.len() {
                    entry_of(o.outlines[i])
                } else {
                    arbitrary()
                },
        ),
    }
}

/// What is read of a list of outlines.
pub open spec fn entries_of(v: Seq<OutlineTree>) -> Seq<EntryTree> {
    v.map_values(|o: OutlineTree| entry_of(o))
}

/// `opml::Outline`, the outside crate's own outline type.
#[verifier::external_type_specification]
#[verifier::external_body]
pub struct ExOutline(opml::Outline);

/// What an `opml::Outline` holds: each of its fields, and the same of the
/// outlines inside it.
pub uninterp spec fn outline_tree(outline: opml::Outline) -> OutlineTree;

/// What a list of outlines holds.
pub open spec fn outline_trees(v: Seq<opml::Outline>) -> Seq<OutlineTree> {
    v.map_values(|o: opml::Outline| outline_tree(o))
}

/// The outlines of the document that `opml::OPML::from_str` reads out of a
/// text, or the words of its error.
pub uninterp spec fn opml_body(content: Seq<char>) -> Result<Seq<OutlineTree>, Seq<char>>;

/// The text that `opml::OPML::to_string` writes for a document of version 2.0
/// with these outlines, whose head has this title and nothing else.
pub uninterp spec fn opml_text(title: Seq<char>, outlines: Seq<OutlineTree>) -> Seq<char>;

/// The text that was written.
pub open spec fn written(r: Result<String, String>) -> Seq<char> {
    match r {
        Ok(xml) => xml@,
        Err(_) => Seq::empty(),
    }
}

/// The text is read as a document with these outlines.
pub open spec fn reads_as(content: Seq<char>, outlines: Seq<OutlineTree>) -> bool {
    opml_body(content) == Ok::<Seq<OutlineTree>, Seq<char>>(outlines)
}

/// A character that XML allows.
pub open spec fn is_xml_char(c: char) -> bool {
    if '\u{20}' <= c {
        c != '\u{fffe}' && c != '\u{ffff}'
    } else {
        c == '\t' || c == '\n' || c == '\r'
    }
}

/// A text that XML allows.
pub open spec fn is_xml_text(s: Seq<char>) -> bool {
    forall|i: int| 0 <= i < s.len() ==> is_xml_char(#[trigger] s[i])
}

/// An optional text that XML allows.
pub open spec fn is_xml_option(s: Option<Seq<char>>) -> bool {
    match s {
        Some(s) => is_xml_text(s),
        None => true,
    }
}

/// An outline has none of the other attributes, and XML allows its own texts.
pub open spec fn is_xml_outline(o: OutlineTree) -> bool {
    o.others == no_others() && is_xml_text(o.text) && is_xml_option(o.title) && is_xml_option(o.kind) && is_xml_option(
        o.xml_url,
    )
}

/// Outlines of two levels at most.
pub open spec fn is_shallow(outlines: Seq<OutlineTree>) -> bool {
    forall|i: int, j: int|
        0 <= i < outlines.len() && 0 <= j < outlines[i].outlines.len() ==> (
        #[trigger] outlines[i].outlines[j]).outlines.len() == 0
}

/// Outlines that, on the first two levels, have none of the other attributes
/// and only texts that XML allows.
pub open spec fn are_xml_outlines(outlines: Seq<OutlineTree>) -> bool {
    &&& forall|i: int| 0 <= i < outlines.len() ==> is_xml_outline(#[trigger] outlines[i])
    &&& forall|i: int, j: int|
        0 <= i < outlines.len() && 0 <= j < outlines[i].outlines.len() ==> is_xml_outline(
            #[trigger] outlines[i].outlines[j],
        )
}

/// `opml::OPML::from_str`: the result is fixed by the text.
#[verifier::external_body]
fn read_document(content: &str) -> (r: Result<Vec<opml::Outline>, String>)
    ensures
        opml_body(content@) == (match r {
            Ok(outlines) => Ok(outline_trees(outlines@)),
            Err(e) => Err(e@),
        }),
{
    opml::OPML::from_str(content).map(|doc| doc.body.outlines).map_err(|e| e.to_string())
}

/// An `opml::Outline` as an entry of this library, with the outlines inside
/// it.
#[verifier::external_body]
fn from_outline(outline: opml::Outline) -> (r: Entry)
    ensures
        r@ == entry_of(outline_tree(outline)),
{
    Entry {
        text: outline.text,
        title: outline.title,
        xml_url: outline.xml_url,
        entries: outline.outlines.into_iter().map(from_outline).collect(),
    }
}

/// An `opml::Outline` with these attributes and outlines, by the crate's
/// `serde` impl: what is not given here is not set.
#[verifier::external_body]
fn new_outline(
    text: &str,
    kind: Option<&str>,
    xml_url: Option<&str>,
    outlines: Vec<opml::Outline>,
) -> (r: opml::Outline)
    ensures
        outline_tree(r) == (OutlineTree {
            text: text@,
            title: None,
            kind: text::str_of(kind),
            xml_url: text::str_of(xml_url),
            others: no_others(),
            outlines: outline_trees(outlines@),
        }),
{
    let mut fields = serde_json::Map::new();
    fields.insert("text".to_owned(), text.into());
    fields.insert("type".to_owned(), kind.into());
    fields.insert("xml_url".to_owned(), xml_url.into());
    fields.insert("outlines".to_owned(), serde_json::Value::Array(Vec::new()));
    let bare: opml::Outline = serde_json::from_value(serde_json::Value::Object(fields)).unwrap();
    opml::Outline { outlines, ..bare }
}

/// `opml::OPML::to_string`, which writes into memory and so does not fail:
/// the text is fixed by the title and all that the outlines hold.
/// `OPML::from_str` reads the same outlines back, where there are any, they
/// have none of the attributes that are not set here, and XML allows all
/// texts: the
/// writer escapes what has a meaning in XML, and the reader refuses the
/// characters that XML does not allow.
#[verifier::external_body]
fn write_document(title: &str, outlines: Vec<opml::Outline>) -> (r: Result<String, String>)
    requires
        is_shallow(outline_trees(outlines@)),
    ensures
        r is Ok,
        written(r) == opml_text(title@, outline_trees(outlines@)),
        (outlines@.len() > 0 && is_xml_text(title@) && are_xml_outlines(outline_trees(outlines@)))
            ==> reads_as(written(r), outline_trees(outlines@)),
{
    let head = opml::Head { title: Some(title.to_owned()), ..opml::Head::default() };
    let body = opml::Body { outlines };
    let doc = opml::OPML { head: Some(head), body, ..opml::OPML::default() };
    doc.to_string().map_err(|e| e.to_string())
}

// ───────────────────────────── reading ─────────────────────────────

/// The label of an entry: its text, or else its title.
pub open spec fn label_of(e: EntryTree) -> Option<Seq<char>> {
    if e.text.len() > 0 {
        Some(e.text)
    } else {
        text::nonempty_of(e.title)
    }
}

/// The folder that an entry's own entries are in: the entry, where it is a
/// folder with a label, else the folder that it is in itself.
pub open spec fn folder_inside(e: EntryTree, folder: Option<Seq<char>>) -> Option<Seq<char>> {
    if e.xml_url is None && e.entries.len() > 0 {
        match label_of(e) {
            Some(label) => Some(label),
            None => folder,
        }
    } else {
        folder
    }
}

/// The feed that an entry is, where it has a URL.
pub open spec fn own_feed(e: EntryTree, folder: Option<Seq<char>>) -> Seq<ImportedFeedView> {
    match e.xml_url {
        Some(url) => seq![
            ImportedFeedView { feed_url: url, title: text::or_else(label_of(e), url), folder },
        ],
        None => Seq::empty(),
    }
}

/// The feeds of an entry: its own, and then those of the entries inside.
pub open spec fn collected(e: EntryTree, folder: Option<Seq<char>>) -> Seq<ImportedFeedView>
    decreases e,
{
    own_feed(e, folder) + collected_all(e.entries, folder_inside(e, folder))
}

/// The feeds of a list of entries.
pub open spec fn collected_all(entries: Seq<EntryTree>, folder: Option<Seq<char>>) -> Seq<
    ImportedFeedView,
>
    decreases entries,
{
    if entries.len() == 0 {
        Seq::empty()
    } else {
        collected_all(entries.drop_last(), folder) + collected(entries.last(), folder)
    }
}

/// The label of an entry: its text, or else its title.
pub fn outline_label(e: &Entry) -> (r: Option<String>)
    ensures
        text::view_of(r) == label_of(e@),
{
    if !e.text.as_str().is_empty() {
        Some(e.text.clone())
    } else {
        match &e.title {
            Some(title) => text::nonempty(Some(title.clone())),
            None => None,
        }
    }
}

/// Adds the feeds of an entry to a list.
pub fn collect(e: &Entry, folder: Option<&str>, out: &mut Vec<ImportedFeed>)
    ensures
        feed_views(final(out)@) == feed_views(old(out)@) + collected(e@, text::str_of(folder)),
    decreases *e,
{
    assert(e@.entries =~= entry_trees(e.entries@));
    let ghost start = feed_views(old(out)@);
    match &e.xml_url {
        Some(url) => {
            let title = match outline_label(e) {
                Some(label) => label,
                None => url.clone(),
            };
            let place = match folder {
                Some(folder) => Some(folder.to_owned()),
                None => None,
            };
            out.push(ImportedFeed { feed_url: url.clone(), title, folder: place });
            assert(feed_views(out@) =~= start + own_feed(e@, text::str_of(folder)));
        },
        None => {
            assert(feed_views(out@) =~= start + own_feed(e@, text::str_of(folder)));
        },
    }
    let label = outline_label(e);
    let inside = if e.xml_url.is_none() && e.entries.len() > 0 {
        match &label {
            Some(label) => Some(label.as_str()),
            None => folder,
        }
    } else {
        folder
    };
    assert(text::str_of(inside) == folder_inside(e@, text::str_of(folder)));
    let ghost own = feed_views(out@);
    let ghost all = e@.entries;
    assert(all.take(0) =~= Seq::<EntryTree>::empty());
    assert(own + collected_all(all.take(0), text::str_of(inside)) =~= own);
    for i in 0..e.entries.len()
        invariant
            all == entry_trees(e.entries@),
            feed_views(out@) == own + collected_all(all.take(i as int), text::str_of(inside)),
    {
        assert(all.take(i + 1).drop_last() =~= all.take(i as int));
        assert(all.take(i + 1).last() == e.entries@[i as int]@);
        assert(decreases_to!(*e => e.entries@[i as int]));
        collect(&e.entries[i], inside, out);
        assert(feed_views(out@) =~= own + collected_all(all.take(i + 1), text::str_of(inside)));
    }
    assert(all.take(all.len() as int) =~= all);
    assert(feed_views(out@) =~= start + collected(e@, text::str_of(folder)));
}

/// The feeds of a file's entries, with their folders' names.
pub fn flatten(entries: &Vec<Entry>) -> (r: Vec<ImportedFeed>)
    ensures
        feed_views(r@) == collected_all(entry_trees(entries@), None),
{
    let mut out: Vec<ImportedFeed> = Vec::new();
    let ghost all = entry_trees(entries@);
    assert(all.take(0) =~= Seq::<EntryTree>::empty());
    assert(feed_views(out@) =~= Seq::<ImportedFeedView>::empty());
    for i in 0..entries.len()
        invariant
            all == entry_trees(entries@),
            feed_views(out@) == collected_all(all.take(i as int), None),
    {
        assert(all.take(i + 1).drop_last() =~= all.take(i as int));
        assert(all.take(i + 1).last() == entries@[i as int]@);
        collect(&entries[i], None, &mut out);
    }
    assert(all.take(all.len() as int) =~= all);
    out
}

/// What reading an OPML document comes to.
pub open spec fn parsed(content: Seq<char>) -> Result<Seq<ImportedFeedView>, ErrorView> {
    match opml_body(content) {
        Ok(outlines) => Ok(collected_all(entries_of(outlines), None)),
        Err(e) => Err(ErrorView::Opml(e)),
    }
}

/// Reads an OPML document into a flat list of feeds with their folders'
/// names.
pub fn parse(content: &str) -> (r: Result<Vec<ImportedFeed>, AppError>)
    ensures
        parsed(content@) == (match r {
            Ok(feeds) => Ok(feed_views(feeds@)),
            Err(e) => Err(e@),
        }),
{
    match read_document(content) {
        Ok(outlines) => {
            let ghost trees = outline_trees(outlines@);
            let ghost count = outlines@.len();
            let mut entries: Vec<Entry> = Vec::new();
            for outline in it: outlines
                invariant
                    trees == outline_trees(it.seq()),
                    it.seq().len() == count,
                    trees.len() == count,
                    entry_trees(entries@) == entries_of(trees).take(it.index()),
            {
                let ghost before = entries@;
                assert(trees[it.index()] == outline_tree(outline));
                let entry = from_outline(outline);
                let ghost tree = entry@;
                entries.push(entry);
                assert(entry_trees(entries@) =~= entry_trees(before).push(tree));
                assert(entries_of(trees).take(it.index() + 1) =~= entries_of(trees).take(
                    it.index(),
                ).push(tree));
            }
            assert(entries_of(trees).take(count as int) =~= entries_of(trees));
            Ok(flatten(&entries))
        },
        Err(e) => Err(AppError::Opml(e)),
    }
}

// ───────────────────────────── writing ─────────────────────────────

/// A feed to be written: its title, its URL and its folder.
pub type Listed = (Seq<char>, Seq<char>, Option<Seq<char>>);

/// A folder, or none, and the titles and URLs of the feeds in it.
pub type Group = (Option<Seq<char>>, Seq<(Seq<char>, Seq<char>)>);

/// What a list of feeds says.
pub open spec fn listed(feeds: Seq<(String, String, Option<String>)>) -> Seq<Listed> {
    feeds.map_values(|f: (String, String, Option<String>)| (f.0@, f.1@, text::view_of(f.2)))
}

/// The order of folders: none first, then by name.
pub open spec fn folder_before(a: Option<Seq<char>>, b: Option<Seq<char>>) -> bool {
    match (a, b) {
        (None, Some(_)) => true,
        (Some(a), Some(b)) => text::precedes(a, b),
        _ => false,
    }
}

/// The groups with one feed more, behind those already in its folder.
pub open spec fn added(
    groups: Seq<Group>,
    folder: Option<Seq<char>>,
    feed: (Seq<char>, Seq<char>),
) -> Seq<Group>
    decreases groups.len(),
{
    if groups.len() == 0 {
        seq![(folder, seq![feed])]
    } else if groups[0].0 == folder {
        seq![(folder, groups[0].1.push(feed))] + groups.drop_first()
    } else if folder_before(groups[0].0, folder) {
        seq![groups[0]] + added(groups.drop_first(), folder, feed)
    } else {
        seq![(folder, seq![feed])] + groups
    }
}

/// The feeds by folder, in the order of the folders.
pub open spec fn grouped(feeds: Seq<Listed>) -> Seq<Group>
    decreases feeds.len(),
{
    if feeds.len() == 0 {
        Seq::empty()
    } else {
        let last = feeds.last();
        added(grouped(feeds.drop_last()), last.2, (last.0, last.1))
    }
}

/// The outline of a feed.
pub open spec fn feed_outline(feed: (Seq<char>, Seq<char>)) -> OutlineTree {
    OutlineTree {
        text: feed.0,
        title: None,
        kind: Some("rss"@),
        xml_url: Some(feed.1),
        others: no_others(),
        outlines: Seq::empty(),
    }
}

/// The outlines of feeds.
pub open spec fn feed_outlines(feeds: Seq<(Seq<char>, Seq<char>)>) -> Seq<OutlineTree> {
    feeds.map_values(|f: (Seq<char>, Seq<char>)| feed_outline(f))
}

/// The outlines of a group: one for its folder with the feeds inside, or the
/// feeds themselves.
pub open spec fn group_outlines(group: Group) -> Seq<OutlineTree> {
    match group.0 {
        Some(name) => seq![
            OutlineTree {
                text: name,
                title: None,
                kind: None,
                xml_url: None,
                others: no_others(),
                outlines: feed_outlines(group.1),
            },
        ],
        None => feed_outlines(group.1),
    }
}

/// The outlines of all groups.
pub open spec fn body_outlines(groups: Seq<Group>) -> Seq<OutlineTree>
    decreases groups.len(),
{
    if groups.len() == 0 {
        Seq::empty()
    } else {
        body_outlines(groups.drop_last()) + group_outlines(groups.last())
    }
}

/// The feeds of a group as they are read back.
pub open spec fn group_feeds(group: Group) -> Seq<ImportedFeedView> {
    group.1.map_values(
        |f: (Seq<char>, Seq<char>)|
            ImportedFeedView { feed_url: f.1, title: f.0, folder: group.0 },
    )
}

/// The feeds of all groups as they are read back.
pub open spec fn all_feeds(groups: Seq<Group>) -> Seq<ImportedFeedView>
    decreases groups.len(),
{
    if groups.len() == 0 {
        Seq::empty()
    } else {
        all_feeds(groups.drop_last()) + group_feeds(groups.last())
    }
}

/// A feed whose title and folder have a name, and whose texts XML allows.
pub open spec fn is_portable(f: Listed) -> bool {
    &&& f.0.len() > 0
    &&& is_xml_text(f.0)
    &&& is_xml_text(f.1)
    &&& match f.2 {
        Some(name) => name.len() > 0 && is_xml_text(name),
        None => true,
    }
}

/// Feeds that an OPML document can carry: there are some, and each can be
/// carried.
pub open spec fn are_portable(feeds: Seq<Listed>) -> bool {
    feeds.len() > 0 && forall|i: int| 0 <= i < feeds.len() ==> is_portable(#[trigger] feeds[i])
}

proof fn lemma_feed_outlines(feeds: Seq<(Seq<char>, Seq<char>)>)
    ensures
        forall|i: int|
            0 <= i < feed_outlines(feeds).len() ==> (
            #[trigger] feed_outlines(feeds)[i]).outlines.len() == 0,
{
}

proof fn lemma_body_is_shallow(groups: Seq<Group>)
    ensures
        is_shallow(body_outlines(groups)),
    decreases groups.len(),
{
    if groups.len() > 0 {
        lemma_body_is_shallow(groups.drop_last());
        let before = body_outlines(groups.drop_last());
        let new = group_outlines(groups.last());
        let all = body_outlines(groups);
        lemma_feed_outlines(groups.last().1);
        assert forall|i: int, j: int|
            0 <= i < all.len() && 0 <= j < all[i].outlines.len() implies (
        #[trigger] all[i].outlines[j]).outlines.len() == 0 by {
            if i < before.len() {
                assert(all[i] == before[i]);
                assert(before[i].outlines[j].outlines.len() == 0);
            } else {
                assert(all[i] == new[i - before.len()]);
            }
        }
    }
}

fn same_folder(a: &Option<String>, b: &Option<String>) -> (r: bool)
    ensures
        r == (text::view_of(*a) == text::view_of(*b)),
{
    match (a, b) {
        (Some(a), Some(b)) => text::same(a.as_str(), b.as_str()),
        (None, None) => true,
        _ => false,
    }
}

fn before(a: &Option<String>, b: &Option<String>) -> (r: bool)
    ensures
        r == folder_before(text::view_of(*a), text::view_of(*b)),
{
    match (a, b) {
        (None, Some(_)) => true,
        (Some(a), Some(b)) => text::is_before(a.as_str(), b.as_str()),
        _ => false,
    }
}

/// A folder, or none, with the feeds in it.
struct FolderFeeds {
    folder: Option<String>,
    feeds: Vec<(String, String)>,
}

spec fn pair_views(v: Seq<(String, String)>) -> Seq<(Seq<char>, Seq<char>)> {
    v.map_values(|p: (String, String)| (p.0@, p.1@))
}

impl View for FolderFeeds {
    type V = Group;

    closed spec fn view(&self) -> Group {
        (text::view_of(self.folder), pair_views(self.feeds@))
    }
}

spec fn group_views(v: Seq<FolderFeeds>) -> Seq<Group> {
    v.map_values(|g: FolderFeeds| g@)
}

fn add_feed(
    groups: &mut Vec<FolderFeeds>,
    folder: &Option<String>,
    title: &String,
    url: &String,
)
    ensures
        group_views(final(groups)@) == added(
            group_views(old(groups)@),
            text::view_of(*folder),
            (title@, url@),
        ),
{
    let ghost start = group_views(old(groups)@);
    let ghost key = text::view_of(*folder);
    let ghost feed = (title@, url@);
    let mut i: usize = 0;
    assert(start.take(0) + added(start.skip(0), key, feed) =~= added(start.skip(0), key, feed));
    assert(start.skip(0) =~= start);
    while i < groups.len() && !same_folder(&groups[i].folder, folder) && before(
        &groups[i].folder,
        folder,
    )
        invariant
            *groups == *old(groups),
            start == group_views(groups@),
            key == text::view_of(*folder),
            i <= groups@.len(),
            added(start, key, feed) == start.take(i as int) + added(
                start.skip(i as int),
                key,
                feed,
            ),
        decreases groups@.len() - i,
    {
        let ghost rest = start.skip(i as int);
        assert(rest[0] == groups@[i as int]@);
        assert(rest.drop_first() =~= start.skip(i + 1));
        assert(start.take(i as int) + (seq![rest[0]] + added(rest.drop_first(), key, feed))
            =~= start.take(i + 1) + added(rest.drop_first(), key, feed));
        i = i + 1;
    }
    let ghost rest = start.skip(i as int);
    if i < groups.len() {
        assert(rest[0] == groups@[i as int]@);
        assert(rest.drop_first() =~= start.skip(i + 1));
    }
    if i < groups.len() && same_folder(&groups[i].folder, folder) {
        let mut group = groups.remove(i);
        let ghost was = group@;
        let ghost held = group.feeds@;
        group.feeds.push((title.clone(), url.clone()));
        assert(pair_views(group.feeds@) =~= pair_views(held).push(feed));
        assert(group@ == (key, was.1.push(feed)));
        groups.insert(i, group);
        assert(group_views(groups@) =~= start.take(i as int) + (seq![(key, was.1.push(feed))]
            + start.skip(i + 1)));
    } else {
        let mut feeds: Vec<(String, String)> = Vec::new();
        feeds.push((title.clone(), url.clone()));
        assert(pair_views(feeds@) =~= seq![feed]);
        let name = match folder {
            Some(name) => Some(name.clone()),
            None => None,
        };
        let group = FolderFeeds { folder: name, feeds };
        assert(group@ == (key, seq![feed]));
        groups.insert(i, group);
        assert(group_views(groups@) =~= start.take(i as int) + (seq![(key, seq![feed])] + rest));
        assert(rest.len() == 0 ==> seq![(key, seq![feed])] + rest =~= seq![(key, seq![feed])]);
    }
}

fn write_feeds(feeds: &Vec<(String, String)>) -> (r: Vec<opml::Outline>)
    ensures
        outline_trees(r@) == feed_outlines(pair_views(feeds@)),
{
    let ghost all = feed_outlines(pair_views(feeds@));
    let mut out: Vec<opml::Outline> = Vec::new();
    for i in 0..feeds.len()
        invariant
            all == feed_outlines(pair_views(feeds@)),
            outline_trees(out@) == all.take(i as int),
    {
        let ghost before = out@;
        let none: Vec<opml::Outline> = Vec::new();
        assert(outline_trees(none@) =~= Seq::<OutlineTree>::empty());
        let outline = new_outline(
            feeds[i].0.as_str(),
            Some("rss"),
            Some(feeds[i].1.as_str()),
            none,
        );
        let ghost tree = outline_tree(outline);
        assert(tree == all[i as int]);
        out.push(outline);
        assert(outline_trees(out@) =~= outline_trees(before).push(tree));
        assert(all.take(i + 1) =~= all.take(i as int).push(tree));
    }
    assert(all.take(all.len() as int) =~= all);
    out
}

fn write_groups(groups: &Vec<FolderFeeds>) -> (r: Vec<opml::Outline>)
    ensures
        outline_trees(r@) == body_outlines(group_views(groups@)),
{
    let ghost all = group_views(groups@);
    let mut out: Vec<opml::Outline> = Vec::new();
    assert(all.take(0) =~= Seq::<Group>::empty());
    assert(outline_trees(out@) =~= Seq::<OutlineTree>::empty());
    for i in 0..groups.len()
        invariant
            all == group_views(groups@),
            outline_trees(out@) == body_outlines(all.take(i as int)),
    {
        assert(all.take(i + 1).drop_last() =~= all.take(i as int));
        assert(all.take(i + 1).last() == groups@[i as int]@);
        let ghost start = out@;
        let mut inside = write_feeds(&groups[i].feeds);
        let ghost trees = outline_trees(inside@);
        match &groups[i].folder {
            Some(name) => {
                let outline = new_outline(name.as_str(), None, None, inside);
                let ghost tree = outline_tree(outline);
                out.push(outline);
                assert(outline_trees(out@) =~= outline_trees(start) + seq![tree]);
            },
            None => {
                let ghost added = inside@;
                out.append(&mut inside);
                assert(outline_trees(out@) =~= outline_trees(start) + trees);
            },
        }
    }
    assert(all.take(all.len() as int) =~= all);
    out
}

/// Writes an OPML document of feeds, given by title, URL and folder. Reading
/// it gives the same feeds back, by folder, where the document can carry
/// them.
pub fn build(feeds: &Vec<(String, String, Option<String>)>) -> (r: Result<String, AppError>)
    ensures
        r matches Ok(xml) && xml@ == opml_text(
            "Papr Subscriptions"@,
            body_outlines(grouped(listed(feeds@))),
        ) && (are_portable(listed(feeds@)) ==> parsed(xml@) == Ok::<
            Seq<ImportedFeedView>,
            ErrorView,
        >(all_feeds(grouped(listed(feeds@))))),
{
    let ghost all = listed(feeds@);
    let mut groups: Vec<FolderFeeds> = Vec::new();
    assert(all.take(0) =~= Seq::<Listed>::empty());
    assert(group_views(groups@) =~= Seq::<Group>::empty());
    for i in 0..feeds.len()
        invariant
            all == listed(feeds@),
            group_views(groups@) == grouped(all.take(i as int)),
    {
        assert(all.take(i + 1).drop_last() =~= all.take(i as int));
        add_feed(&mut groups, &feeds[i].2, &feeds[i].0, &feeds[i].1);
    }
    assert(all.take(all.len() as int) =~= all);
    let outlines = write_groups(&groups);
    proof {
        lemma_body_is_shallow(grouped(all));
        if are_portable(all) {
            lemma_portable_groups(all);
            lemma_body_reads_back(grouped(all));
            reveal_strlit("Papr Subscriptions");
            assert(outline_trees(outlines@).len() == outlines@.len());
        }
    }
    match write_document("Papr Subscriptions", outlines) {
        Ok(xml) => Ok(xml),
        Err(e) => Err(AppError::Opml(e)),
    }
}

// ───────────────────────────── laws ─────────────────────────────

/// A group that has feeds, all of them with names that XML allows, and a
/// folder with such a name.
pub open spec fn is_portable_group(g: Group) -> bool {
    &&& g.1.len() > 0
    &&& match g.0 {
        Some(name) => name.len() > 0 && is_xml_text(name),
        None => true,
    }
    &&& forall|i: int|
        0 <= i < g.1.len() ==> (#[trigger] g.1[i]).0.len() > 0 && is_xml_text(g.1[i].0)
            && is_xml_text(g.1[i].1)
}

proof fn lemma_added_portable(
    groups: Seq<Group>,
    folder: Option<Seq<char>>,
    feed: (Seq<char>, Seq<char>),
)
    requires
        forall|i: int| 0 <= i < groups.len() ==> is_portable_group(#[trigger] groups[i]),
        is_portable((feed.0, feed.1, folder)),
    ensures
        forall|i: int|
            0 <= i < added(groups, folder, feed).len() ==> is_portable_group(
                #[trigger] added(groups, folder, feed)[i],
            ),
        added(groups, folder, feed).len() > 0,
    decreases groups.len(),
{
    let all = added(groups, folder, feed);
    if groups.len() == 0 {
        assert(is_portable_group((folder, seq![feed])));
    } else if groups[0].0 == folder {
        assert(is_portable_group(groups[0]));
        let grown: Group = (folder, groups[0].1.push(feed));
        assert(is_portable_group(grown));
        assert forall|i: int| 0 <= i < all.len() implies is_portable_group(#[trigger] all[i]) by {
            if i > 0 {
                assert(all[i] == groups[i]);
            }
        }
    } else if folder_before(groups[0].0, folder) {
        let rest = groups.drop_first();
        assert forall|i: int| 0 <= i < rest.len() implies is_portable_group(#[trigger] rest[i]) by {
            assert(rest[i] == groups[i + 1]);
        }
        lemma_added_portable(rest, folder, feed);
        assert forall|i: int| 0 <= i < all.len() implies is_portable_group(#[trigger] all[i]) by {
            if i == 0 {
                assert(all[0] == groups[0]);
            } else {
                assert(all[i] == added(rest, folder, feed)[i - 1]);
            }
        }
    } else {
        assert(is_portable_group((folder, seq![feed])));
        assert forall|i: int| 0 <= i < all.len() implies is_portable_group(#[trigger] all[i]) by {
            if i > 0 {
                assert(all[i] == groups[i - 1]);
            }
        }
    }
}

proof fn lemma_portable_groups(feeds: Seq<Listed>)
    requires
        forall|i: int| 0 <= i < feeds.len() ==> is_portable(#[trigger] feeds[i]),
    ensures
        forall|i: int|
            0 <= i < grouped(feeds).len() ==> is_portable_group(#[trigger] grouped(feeds)[i]),
        feeds.len() > 0 ==> grouped(feeds).len() > 0,
    decreases feeds.len(),
{
    if feeds.len() > 0 {
        let head = feeds.drop_last();
        assert forall|i: int| 0 <= i < head.len() implies is_portable(#[trigger] head[i]) by {
            assert(head[i] == feeds[i]);
        }
        lemma_portable_groups(head);
        assert(is_portable(feeds[feeds.len() - 1]));
        lemma_added_portable(grouped(head), feeds.last().2, (feeds.last().0, feeds.last().1));
    }
}

proof fn lemma_collected_joins(a: Seq<EntryTree>, b: Seq<EntryTree>, folder: Option<Seq<char>>)
    ensures
        collected_all(a + b, folder) == collected_all(a, folder) + collected_all(b, folder),
    decreases b.len(),
{
    if b.len() == 0 {
        assert(a + b =~= a);
        assert(collected_all(a, folder) + collected_all(b, folder) =~= collected_all(a, folder));
    } else {
        lemma_collected_joins(a, b.drop_last(), folder);
        assert((a + b).drop_last() =~= a + b.drop_last());
        assert((a + b).last() == b.last());
        assert(collected_all(a, folder) + (collected_all(b.drop_last(), folder) + collected(
            b.last(),
            folder,
        )) =~= (collected_all(a, folder) + collected_all(b.drop_last(), folder)) + collected(
            b.last(),
            folder,
        ));
    }
}

proof fn lemma_feeds_read_back(feeds: Seq<(Seq<char>, Seq<char>)>, folder: Option<Seq<char>>)
    requires
        forall|i: int| 0 <= i < feeds.len() ==> (#[trigger] feeds[i]).0.len() > 0,
    ensures
        collected_all(entries_of(feed_outlines(feeds)), folder) == group_feeds((folder, feeds)),
    decreases feeds.len(),
{
    let entries = entries_of(feed_outlines(feeds));
    if feeds.len() == 0 {
        assert(group_feeds((folder, feeds)) =~= Seq::<ImportedFeedView>::empty());
    } else {
        let head = feeds.drop_last();
        assert forall|i: int| 0 <= i < head.len() implies (#[trigger] head[i]).0.len() > 0 by {
            assert(head[i] == feeds[i]);
        }
        lemma_feeds_read_back(head, folder);
        assert(entries.drop_last() =~= entries_of(feed_outlines(head)));
        let last = feeds[feeds.len() - 1];
        let e = entries.last();
        assert(e == entry_of(feed_outline(last)));
        assert(e.entries.len() == 0);
        assert(collected_all(e.entries, folder_inside(e, folder)) =~= Seq::<
            ImportedFeedView,
        >::empty());
        assert(collected(e, folder) =~= seq![
            ImportedFeedView { feed_url: last.1, title: last.0, folder },
        ]);
        assert(group_feeds((folder, feeds)) =~= group_feeds((folder, head)).push(
            ImportedFeedView { feed_url: last.1, title: last.0, folder },
        ));
    }
}

proof fn lemma_group_reads_back(group: Group)
    requires
        is_portable_group(group),
    ensures
        collected_all(entries_of(group_outlines(group)), None) == group_feeds(group),
        are_xml_outlines(group_outlines(group)),
        group_outlines(group).len() > 0,
{
    reveal_strlit("rss");
    assert(is_xml_text("rss"@));
    let inside = feed_outlines(group.1);
    assert forall|i: int| 0 <= i < inside.len() implies is_xml_outline(#[trigger] inside[i])
        && inside[i].outlines.len() == 0 by {
        assert(inside[i] == feed_outline(group.1[i]));
    }
    lemma_feeds_read_back(group.1, group.0);
    match group.0 {
        Some(name) => {
            let outline = group_outlines(group)[0];
            let entries = entries_of(group_outlines(group));
            assert(entries.drop_last() =~= Seq::<EntryTree>::empty());
            let e = entry_of(outline);
            assert(entries.last() == e);
            assert(e.entries =~= entries_of(inside));
            assert(e.entries.len() > 0);
            assert(folder_inside(e, None) == Some(name));
            assert(collected(e, None) =~= collected_all(e.entries, Some(name)));
            assert(collected_all(entries.drop_last(), None) =~= Seq::<ImportedFeedView>::empty());
            assert(collected_all(entries, None) =~= collected(e, None));
        },
        None => {},
    }
}

proof fn lemma_body_reads_back(groups: Seq<Group>)
    requires
        forall|i: int| 0 <= i < groups.len() ==> is_portable_group(#[trigger] groups[i]),
    ensures
        collected_all(entries_of(body_outlines(groups)), None) == all_feeds(groups),
        are_xml_outlines(body_outlines(groups)),
        groups.len() > 0 ==> body_outlines(groups).len() > 0,
    decreases groups.len(),
{
    if groups.len() > 0 {
        let head = groups.drop_last();
        assert forall|i: int| 0 <= i < head.len() implies is_portable_group(#[trigger] head[i]) by {
            assert(head[i] == groups[i]);
        }
        lemma_body_reads_back(head);
        let last = groups[groups.len() - 1];
        lemma_group_reads_back(last);
        let a = body_outlines(head);
        let b = group_outlines(last);
        let all = body_outlines(groups);
        assert(entries_of(all) =~= entries_of(a) + entries_of(b));
        lemma_collected_joins(entries_of(a), entries_of(b), None);
        assert forall|i: int| 0 <= i < all.len() implies is_xml_outline(#[trigger] all[i]) by {
            if i < a.len() {
                assert(all[i] == a[i]);
            } else {
                assert(all[i] == b[i - a.len()]);
            }
        }
        assert forall|i: int, j: int|
            0 <= i < all.len() && 0 <= j < all[i].outlines.len() implies is_xml_outline(
            #[trigger] all[i].outlines[j],
        ) by {
            if i < a.len() {
                assert(is_xml_outline(a[i].outlines[j]));
            } else {
                assert(is_xml_outline(b[i - a.len()].outlines[j]));
            }
        }
    }
}

/// The order of folders is one: a folder before another is before those
/// behind it.
proof fn lemma_folder_chain(a: Option<Seq<char>>, b: Option<Seq<char>>, c: Option<Seq<char>>)
    requires
        folder_before(a, b),
        folder_before(b, c),
    ensures
        folder_before(a, c),
{
    match (a, b, c) {
        (Some(a), Some(b), Some(c)) => {
            text::lemma_precedes_chain(a, b, c);
        },
        _ => {},
    }
}

proof fn lemma_folder_total(a: Option<Seq<char>>, b: Option<Seq<char>>)
    ensures
        a != b ==> folder_before(a, b) != folder_before(b, a),
        a == b ==> !folder_before(a, b),
{
    match (a, b) {
        (Some(a), Some(b)) => {
            text::lemma_precedes_total(a, b);
        },
        _ => {},
    }
}

/// The groups stand in the order of their folders, none twice.
pub open spec fn are_sorted(groups: Seq<Group>) -> bool {
    forall|i: int, j: int|
        0 <= i < j < groups.len() ==> folder_before(
            (#[trigger] groups[i]).0,
            (#[trigger] groups[j]).0,
        )
}

proof fn lemma_added_sorted(
    groups: Seq<Group>,
    folder: Option<Seq<char>>,
    feed: (Seq<char>, Seq<char>),
)
    requires
        are_sorted(groups),
    ensures
        are_sorted(added(groups, folder, feed)),
        added(groups, folder, feed).len() > 0,
        forall|i: int|
            0 <= i < added(groups, folder, feed).len() ==> (#[trigger] added(
                groups,
                folder,
                feed,
            )[i]).0 == folder || exists|j: int|
                0 <= j < groups.len() && (#[trigger] groups[j]).0 == added(
                    groups,
                    folder,
                    feed,
                )[i].0,
    decreases groups.len(),
{
    let all = added(groups, folder, feed);
    if groups.len() > 0 {
        let rest = groups.drop_first();
        assert(are_sorted(rest)) by {
            assert forall|i: int, j: int| 0 <= i < j < rest.len() implies folder_before(
                (#[trigger] rest[i]).0,
                (#[trigger] rest[j]).0,
            ) by {
                assert(rest[i] == groups[i + 1]);
                assert(rest[j] == groups[j + 1]);
            }
        }
        lemma_folder_total(groups[0].0, folder);
        if groups[0].0 == folder {
            assert forall|i: int, j: int| 0 <= i < j < all.len() implies folder_before(
                (#[trigger] all[i]).0,
                (#[trigger] all[j]).0,
            ) by {
                assert(all[j] == groups[j]);
                assert(all[i].0 == groups[i].0);
            }
            assert forall|i: int| 0 <= i < all.len() implies (#[trigger] all[i]).0 == folder
                || exists|j: int|
                0 <= j < groups.len() && (#[trigger] groups[j]).0 == all[i].0 by {
                assert(groups[i].0 == all[i].0);
            }
        } else if folder_before(groups[0].0, folder) {
            lemma_added_sorted(rest, folder, feed);
            let tail = added(rest, folder, feed);
            assert forall|i: int| 0 <= i < all.len() implies (#[trigger] all[i]).0 == folder
                || exists|j: int|
                0 <= j < groups.len() && (#[trigger] groups[j]).0 == all[i].0 by {
                if i == 0 {
                    assert(groups[0].0 == all[0].0);
                } else {
                    assert(all[i] == tail[i - 1]);
                    if tail[i - 1].0 != folder {
                        let k = choose|k: int|
                            0 <= k < rest.len() && (#[trigger] rest[k]).0 == tail[i - 1].0;
                        assert(groups[k + 1].0 == all[i].0);
                    }
                }
            }
            assert forall|i: int, j: int| 0 <= i < j < all.len() implies folder_before(
                (#[trigger] all[i]).0,
                (#[trigger] all[j]).0,
            ) by {
                assert(all[j] == tail[j - 1]);
                if i == 0 {
                    if tail[j - 1].0 != folder {
                        let k = choose|k: int|
                            0 <= k < rest.len() && (#[trigger] rest[k]).0 == tail[j - 1].0;
                        assert(rest[k] == groups[k + 1]);
                        assert(folder_before(groups[0].0, groups[k + 1].0));
                    }
                } else {
                    assert(all[i] == tail[i - 1]);
                }
            }
        } else {
            assert forall|i: int, j: int| 0 <= i < j < all.len() implies folder_before(
                (#[trigger] all[i]).0,
                (#[trigger] all[j]).0,
            ) by {
                assert(all[j] == groups[j - 1]);
                if i == 0 {
                    if j > 1 {
                        assert(folder_before(groups[0].0, groups[j - 1].0));
                        lemma_folder_chain(folder, groups[0].0, groups[j - 1].0);
                    }
                } else {
                    assert(all[i] == groups[i - 1]);
                }
            }
            assert forall|i: int| 0 <= i < all.len() implies (#[trigger] all[i]).0 == folder
                || exists|j: int|
                0 <= j < groups.len() && (#[trigger] groups[j]).0 == all[i].0 by {
                if i > 0 {
                    assert(groups[i - 1].0 == all[i].0);
                }
            }
        }
    }
}

/// The groups of a document stand in the order of their folders: feeds in
/// none first, then the folders by name, each once.
pub proof fn law_folders_are_sorted(feeds: Seq<Listed>)
    ensures
        are_sorted(grouped(feeds)),
    decreases feeds.len(),
{
    if feeds.len() > 0 {
        law_folders_are_sorted(feeds.drop_last());
        lemma_added_sorted(
            grouped(feeds.drop_last()),
            feeds.last().2,
            (feeds.last().0, feeds.last().1),
        );
    }
}

/// A feed to be written as it is read back.
pub open spec fn imported(f: Listed) -> ImportedFeedView {
    ImportedFeedView { feed_url: f.1, title: f.0, folder: f.2 }
}

/// Feeds to be written as they are read back.
pub open spec fn imported_all(feeds: Seq<Listed>) -> Seq<ImportedFeedView> {
    feeds.map_values(|f: Listed| imported(f))
}

proof fn lemma_all_feeds_join(a: Seq<Group>, b: Seq<Group>)
    ensures
        all_feeds(a + b) == all_feeds(a) + all_feeds(b),
    decreases b.len(),
{
    if b.len() == 0 {
        assert(a + b =~= a);
        assert(all_feeds(a) + all_feeds(b) =~= all_feeds(a));
    } else {
        lemma_all_feeds_join(a, b.drop_last());
        assert((a + b).drop_last() =~= a + b.drop_last());
        assert((a + b).last() == b.last());
        assert(all_feeds(a) + (all_feeds(b.drop_last()) + group_feeds(b.last())) =~= (all_feeds(a)
            + all_feeds(b.drop_last())) + group_feeds(b.last()));
    }
}

proof fn lemma_one_group(g: Group)
    ensures
        all_feeds(seq![g]) == group_feeds(g),
{
    assert(seq![g].drop_last() =~= Seq::<Group>::empty());
    assert(all_feeds(seq![g].drop_last()) =~= Seq::<ImportedFeedView>::empty());
    assert(all_feeds(seq![g]) =~= group_feeds(g));
}

proof fn lemma_added_feeds(
    groups: Seq<Group>,
    folder: Option<Seq<char>>,
    feed: (Seq<char>, Seq<char>),
)
    ensures
        all_feeds(added(groups, folder, feed)).to_multiset() =~= all_feeds(
            groups,
        ).to_multiset().insert(imported((feed.0, feed.1, folder))),
    decreases groups.len(),
{
    broadcast use vstd::multiset::group_multiset_axioms;

    let new = imported((feed.0, feed.1, folder));
    let single: Group = (folder, seq![feed]);
    lemma_one_group(single);
    vstd::seq_lib::to_multiset_len(Seq::<ImportedFeedView>::empty());
    assert(group_feeds(single) =~= Seq::<ImportedFeedView>::empty().push(new));
    vstd::seq_lib::to_multiset_build(Seq::<ImportedFeedView>::empty(), new);
    if groups.len() == 0 {
        assert(groups =~= Seq::<Group>::empty());
    } else {
        let first = groups[0];
        let rest = groups.drop_first();
        assert(groups =~= seq![first] + rest);
        lemma_all_feeds_join(seq![first], rest);
        lemma_one_group(first);
        vstd::seq_lib::lemma_multiset_commutative(group_feeds(first), all_feeds(rest));
        if first.0 == folder {
            let grown: Group = (folder, first.1.push(feed));
            lemma_all_feeds_join(seq![grown], rest);
            lemma_one_group(grown);
            assert(group_feeds(grown) =~= group_feeds(first).push(new));
            vstd::seq_lib::to_multiset_build(group_feeds(first), new);
            vstd::seq_lib::lemma_multiset_commutative(group_feeds(grown), all_feeds(rest));
        } else if folder_before(first.0, folder) {
            lemma_added_feeds(rest, folder, feed);
            lemma_all_feeds_join(seq![first], added(rest, folder, feed));
            vstd::seq_lib::lemma_multiset_commutative(
                group_feeds(first),
                all_feeds(added(rest, folder, feed)),
            );
        } else {
            lemma_all_feeds_join(seq![single], groups);
            vstd::seq_lib::lemma_multiset_commutative(group_feeds(single), all_feeds(groups));
        }
    }
}

/// What is read back from a written document is what was written: the same
/// feeds with the same titles and folders, each as often, whatever their
/// order.
pub proof fn law_round_trip_keeps_feeds(feeds: Seq<Listed>)
    ensures
        all_feeds(grouped(feeds)).to_multiset() == imported_all(feeds).to_multiset(),
    decreases feeds.len(),
{
    if feeds.len() == 0 {
        assert(all_feeds(grouped(feeds)) =~= imported_all(feeds));
    } else {
        let head = feeds.drop_last();
        let last = feeds.last();
        law_round_trip_keeps_feeds(head);
        lemma_added_feeds(grouped(head), last.2, (last.0, last.1));
        assert(imported_all(feeds) =~= imported_all(head).push(imported(last)));
        vstd::seq_lib::to_multiset_build(imported_all(head), imported(last));
        assert(all_feeds(grouped(feeds)).to_multiset() =~= imported_all(feeds).to_multiset());
    }
}

/// An entry is labelled by its text, by its title only where it has no text, and
/// not at all where it has neither.
pub proof fn law_labels(e: EntryTree)
    ensures
        e.text.len() > 0 ==> label_of(e) == Some(e.text),
        e.text.len() == 0 && (e.title matches Some(t) && t.len() > 0) ==> label_of(e) == e.title,
        e.text.len() == 0 && !(e.title matches Some(t) && t.len() > 0) ==> label_of(e) is None,
{
}

/// Every entry with a URL is a feed, in the folder that it stands in, under its
/// label or else its URL; and it comes before the feeds inside it.
pub proof fn law_entries_with_urls_are_feeds(e: EntryTree, folder: Option<Seq<char>>)
    ensures
        e.xml_url matches Some(url) ==> collected(e, folder) == seq![
            ImportedFeedView {
                feed_url: url,
                title: if label_of(e) is Some {
                    label_of(e)->0
                } else {
                    url
                },
                folder,
            },
        ] + collected_all(e.entries, folder),
        e.xml_url is None && e.entries.len() == 0 ==> collected(e, folder) == Seq::<
            ImportedFeedView,
        >::empty(),
        e.xml_url is None && e.entries.len() > 0 && label_of(e) is Some ==> collected(e, folder)
            == collected_all(e.entries, label_of(e)),
        e.xml_url is None && e.entries.len() > 0 && label_of(e) is None ==> collected(e, folder)
            == collected_all(e.entries, folder),
{
    let none = Seq::<ImportedFeedView>::empty();
    assert(none + collected_all(e.entries, folder_inside(e, folder)) =~= collected_all(
        e.entries,
        folder_inside(e, folder),
    ));
    if e.xml_url is None {
        assert(collected(e, folder) =~= collected_all(e.entries, folder_inside(e, folder)));
    }
}

/// Every entry of a list is read, in order.
pub proof fn law_every_entry_is_read(
    entries: Seq<EntryTree>,
    e: EntryTree,
    folder: Option<Seq<char>>,
)
    ensures
        collected_all(Seq::empty(), folder) == Seq::<ImportedFeedView>::empty(),
        collected_all(entries.push(e), folder) == collected_all(entries, folder) + collected(
            e,
            folder,
        ),
{
    assert(entries.push(e).drop_last() =~= entries);
}

/// A document gives the feeds of all its outlines, those at the top in no
/// folder, and one that cannot be read gives an error in the reader's words.
pub proof fn law_documents_are_read(content: Seq<char>)
    ensures
        opml_body(content) matches Ok(outlines) ==> parsed(content) == Ok::<
            Seq<ImportedFeedView>,
            ErrorView,
        >(collected_all(outlines.map_values(|o: OutlineTree| entry_of(o)), None)),
        opml_body(content) matches Err(e) ==> parsed(content) == Err::<
            Seq<ImportedFeedView>,
            ErrorView,
        >(ErrorView::Opml(e)),
{
}

/// What is read of an outline is its text, title and URL, and the same of every
/// outline inside it.
pub proof fn law_outlines_are_read(o: OutlineTree, i: int)
    ensures
        entry_of(o).text == o.text,
        entry_of(o).title == o.title,
        entry_of(o).xml_url == o.xml_url,
        entry_of(o).entries.len() == o.outlines.len(),
        0 <= i < o.outlines.len() ==> entry_of(o).entries[i] == entry_of(o.outlines[i]),
{
}

/// Feeds in no folder stand before those in one, and folders stand by name.
pub proof fn law_folders_are_ordered(a: Seq<char>, b: Seq<char>)
    ensures
        folder_before(None, Some(a)),
        !folder_before(Some(a), None),
        !folder_before(None, None),
        folder_before(Some(a), Some(b)) <==> text::precedes(a, b),
{
}

/// A feed is written with its title, its URL and its type; a folder is written
/// under its name with all its feeds inside, in order; and feeds in no folder are
/// written on their own.
pub proof fn law_feeds_are_written(groups: Seq<Group>, g: Group, i: int)
    ensures
        body_outlines(Seq::empty()) == Seq::<OutlineTree>::empty(),
        body_outlines(groups.push(g)) == body_outlines(groups) + group_outlines(g),
        feed_outlines(g.1).len() == g.1.len(),
        0 <= i < g.1.len() ==> feed_outlines(g.1)[i] == (OutlineTree {
            text: g.1[i].0,
            title: None,
            kind: Some("rss"@),
            xml_url: Some(g.1[i].1),
            others: no_others(),
            outlines: Seq::empty(),
        }),
        g.0 is None ==> group_outlines(g) == feed_outlines(g.1),
        g.0 matches Some(name) ==> group_outlines(g) == seq![
            OutlineTree {
                text: name,
                title: None,
                kind: None,
                xml_url: None,
                others: no_others(),
                outlines: feed_outlines(g.1),
            },
        ],
{
    assert(groups.push(g).drop_last() =~= groups);
}

/// What is read back of a group is each of its feeds, in order and in its folder.
pub proof fn law_groups_are_read_back(groups: Seq<Group>, g: Group, i: int)
    ensures
        all_feeds(Seq::empty()) == Seq::<ImportedFeedView>::empty(),
        all_feeds(groups.push(g)) == all_feeds(groups) + group_feeds(g),
        group_feeds(g).len() == g.1.len(),
        0 <= i < g.1.len() ==> group_feeds(g)[i] == (ImportedFeedView {
            feed_url: g.1[i].1,
            title: g.1[i].0,
            folder: g.0,
        }),
{
    assert(groups.push(g).drop_last() =~= groups);
}

/// The feeds of one folder keep their order: a feed that is added comes behind
/// those of its folder, and the other folders stay as they are.
pub proof fn law_folders_keep_the_order(
    groups: Seq<Group>,
    folder: Option<Seq<char>>,
    feed: (Seq<char>, Seq<char>),
    i: int,
)
    requires
        are_sorted(groups),
        0 <= i < groups.len(),
    ensures
        groups[i].0 == folder ==> added(groups, folder, feed) == groups.update(
            i,
            (folder, groups[i].1.push(feed)),
        ),
        groups[i].0 != folder ==> added(groups, folder, feed).contains(groups[i]),
    decreases groups.len(),
{
    let rest = groups.drop_first();
    let all = added(groups, folder, feed);
    assert forall|a: int, b: int| 0 <= a < b < rest.len() implies folder_before(
        (#[trigger] rest[a]).0,
        (#[trigger] rest[b]).0,
    ) by {
        assert(rest[a] == groups[a + 1]);
        assert(rest[b] == groups[b + 1]);
    }
    if groups[0].0 == folder {
        if i == 0 {
            assert(all =~= groups.update(0, (folder, groups[0].1.push(feed))));
        } else {
            assert(folder_before(groups[0].0, groups[i].0));
            lemma_folder_total(groups[0].0, groups[i].0);
            assert(all[i] == groups[i]);
        }
    } else if folder_before(groups[0].0, folder) {
        if i == 0 {
            assert(all[0] == groups[0]);
        } else {
            law_folders_keep_the_order(rest, folder, feed, i - 1);
            assert(rest[i - 1] == groups[i]);
            let tail = added(rest, folder, feed);
            if groups[i].0 == folder {
                assert(tail == rest.update(i - 1, (folder, groups[i].1.push(feed))));
                assert(all =~= groups.update(i, (folder, groups[i].1.push(feed))));
            } else {
                let k = choose|k: int| 0 <= k < tail.len() && tail[k] == groups[i];
                assert(all[k + 1] == groups[i]);
            }
        }
    } else {
        assert(all[i + 1] == groups[i]);
        if groups[i].0 == folder && i > 0 {
            assert(folder_before(groups[0].0, groups[i].0));
        }
    }
}

/// A feed whose folder has no group yet makes one of its own, and no more.
pub proof fn law_new_folders_have_a_group(
    groups: Seq<Group>,
    folder: Option<Seq<char>>,
    feed: (Seq<char>, Seq<char>),
)
    requires
        forall|i: int| 0 <= i < groups.len() ==> (#[trigger] groups[i]).0 != folder,
    ensures
        added(groups, folder, feed).contains((folder, seq![feed])),
        added(groups, folder, feed).len() == groups.len() + 1,
    decreases groups.len(),
{
    let all = added(groups, folder, feed);
    if groups.len() == 0 {
        assert(all[0] == (folder, seq![feed]));
    } else if folder_before(groups[0].0, folder) {
        let rest = groups.drop_first();
        assert forall|i: int| 0 <= i < rest.len() implies (#[trigger] rest[i]).0 != folder by {
            assert(rest[i] == groups[i + 1]);
        }
        law_new_folders_have_a_group(rest, folder, feed);
        let tail = added(rest, folder, feed);
        let k = choose|k: int| 0 <= k < tail.len() && tail[k] == (folder, seq![feed]);
        assert(all[k + 1] == (folder, seq![feed]));
    } else {
        assert(all[0] == (folder, seq![feed]));
    }
}

/// Feeds are grouped one after the other, each under its own folder.
pub proof fn law_every_feed_is_grouped(feeds: Seq<Listed>, f: Listed)
    ensures
        grouped(Seq::empty()) == Seq::<Group>::empty(),
        grouped(feeds.push(f)) == added(grouped(feeds), f.2, (f.0, f.1)),
{
    assert(feeds.push(f).drop_last() =~= feeds);
}

/// Feeds can be carried by a document exactly where there are some, and each has
/// a title, its folder a name, and all of their texts only characters that XML
/// allows.
pub proof fn law_portable_feeds(feeds: Seq<Listed>)
    ensures
        are_portable(feeds) <==> feeds.len() > 0 && forall|i: int|
            0 <= i < feeds.len() ==> {
                let f = #[trigger] feeds[i];
                &&& f.0.len() > 0 && is_xml_text(f.0) && is_xml_text(f.1)
                &&& f.2 matches Some(name) ==> name.len() > 0 && is_xml_text(name)
            },
{
    if feeds.len() > 0 && forall|i: int|
        0 <= i < feeds.len() ==> {
            let f = #[trigger] feeds[i];
            &&& f.0.len() > 0 && is_xml_text(f.0) && is_xml_text(f.1)
            &&& f.2 matches Some(name) ==> name.len() > 0 && is_xml_text(name)
        } {
        assert forall|i: int| 0 <= i < feeds.len() implies is_portable(#[trigger] feeds[i]) by {
            let f = feeds[i];
        }
    }
    if are_portable(feeds) {
        assert forall|i: int| 0 <= i < feeds.len() implies ({
            let f = #[trigger] feeds[i];
            &&& f.0.len() > 0 && is_xml_text(f.0) && is_xml_text(f.1)
            &&& f.2 matches Some(name) ==> name.len() > 0 && is_xml_text(name)
        }) by {
            assert(is_portable(feeds[i]));
        }
    }
}

/// Printable text is allowed by XML, and so are tabulators and line breaks; no
/// other control is.
pub proof fn law_xml_characters(c: char)
    ensures
        ' ' <= c <= '~' ==> is_xml_char(c),
        c < ' ' ==> (is_xml_char(c) <==> c == '\t' || c == '\n' || c == '\r'),
        '\u{80}' <= c <= '\u{fffd}' ==> is_xml_char(c),
        c > '\u{ffff}' ==> is_xml_char(c),
        !is_xml_char('\u{fffe}') && !is_xml_char('\u{ffff}'),
{
}

/// Feeds say their own title, URL and folder, in order, on the way out and on the
/// way in.
pub proof fn law_feeds_say_what_they_hold(
    out: Seq<(String, String, Option<String>)>,
    read: Seq<ImportedFeed>,
    i: int,
)
    ensures
        listed(out).len() == out.len(),
        0 <= i < out.len() ==> listed(out)[i] == (out[i].0@, out[i].1@, text::view_of(out[i].2)),
        feed_views(read).len() == read.len(),
        0 <= i < read.len() ==> feed_views(read)[i].feed_url == read[i].feed_url@ && feed_views(
            read,
        )[i].title == read[i].title@ && feed_views(read)[i].folder == text::view_of(
            read[i].folder,
        ),
{
}

} // verus!
