//! JSON documents as plain values: what request bodies are built from and
//! what replies are read into.

use vstd::prelude::*;
use crate::text;

verus! {

/// A JSON document. Numbers are kept as the text they are written in.
#[derive(Debug, PartialEq, Eq)]
pub enum Json {
    Null,
    Bool(bool),
    Number(String),
    Text(String),
    List(Vec<Json>),
    Object(Vec<(String, Json)>),
}

/// What a JSON document is.
#[verifier::ext_equal]
pub enum JsonTree {
    Null,
    Bool(bool),
    Number(Seq<char>),
    Text(Seq<char>),
    List(Seq<JsonTree>),
    Object(Seq<(Seq<char>, JsonTree)>),
}

impl Json {
    /// The tree a document stands for.
    pub open spec fn tree(self) -> JsonTree
        decreases self,
    {
        match self {
            Json::Null => JsonTree::Null,
            Json::Bool(b) => JsonTree::Bool(b),
            Json::Number(n) => JsonTree::Number(n@),
            Json::Text(s) => JsonTree::Text(s@),
            Json::List(v) => JsonTree::List(
                Seq::new(
                    v@.len(),
                    |i: int|
                        if 0 <= i < v@.len() {
                            v@[i].tree()
                        } else {
                            JsonTree::Null
                        },
                ),
            ),
            Json::Object(v) => JsonTree::Object(
                Seq::new(
                    v@.len(),
                    |i: int|
                        if 0 <= i < v@.len() {
                            (v@[i].0@, v@[i].1.tree())
                        } else {
                            (Seq::empty(), JsonTree::Null)
                        },
                ),
            ),
        }
    }
}

impl View for Json {
    type V = JsonTree;

    open spec fn view(&self) -> JsonTree {
        self.tree()
    }
}

/// The trees of a list of documents.
pub open spec fn trees(v: Seq<Json>) -> Seq<JsonTree> {
    v.map_values(|j: Json| j@)
}

/// The keys and trees of a list of fields.
pub open spec fn fields(v: Seq<(String, Json)>) -> Seq<(Seq<char>, JsonTree)> {
    v.map_values(|f: (String, Json)| (f.0@, f.1@))
}

/// The value under `key`: that of the first field with this key.
pub open spec fn value_of(v: Seq<(Seq<char>, JsonTree)>, key: Seq<char>) -> Option<JsonTree>
    decreases v.len(),
{
    if v.len() == 0 {
        None
    } else if v[0].0 == key {
        Some(v[0].1)
    } else {
        value_of(v.drop_first(), key)
    }
}

impl JsonTree {
    /// The value under `key`, where the tree is an object that has one.
    pub open spec fn field(self, key: Seq<char>) -> Option<JsonTree> {
        match self {
            JsonTree::Object(v) => value_of(v, key),
            _ => None,
        }
    }

    /// The item at `i`, where the tree is a list that long.
    pub open spec fn item(self, i: int) -> Option<JsonTree> {
        match self {
            JsonTree::List(v) => if 0 <= i < v.len() {
                Some(v[i])
            } else {
                None
            },
            _ => None,
        }
    }

    /// The text, where the tree is one.
    pub open spec fn as_text(self) -> Option<Seq<char>> {
        match self {
            JsonTree::Text(s) => Some(s),
            _ => None,
        }
    }
}

/// The text in an optional tree.
pub open spec fn text_in(t: Option<JsonTree>) -> Option<Seq<char>> {
    match t {
        Some(t) => t.as_text(),
        None => None,
    }
}

/// `field` through an optional tree.
pub open spec fn field_in(t: Option<JsonTree>, key: Seq<char>) -> Option<JsonTree> {
    match t {
        Some(t) => t.field(key),
        None => None,
    }
}

/// `item` through an optional tree.
pub open spec fn item_in(t: Option<JsonTree>, i: int) -> Option<JsonTree> {
    match t {
        Some(t) => t.item(i),
        None => None,
    }
}

/// The tree behind an optional reference to a document.
pub open spec fn tree_of(j: Option<&Json>) -> Option<JsonTree> {
    match j {
        Some(j) => Some(j@),
        None => None,
    }
}

impl Json {
    /// The document that is this text.
    pub fn text(s: &str) -> (r: Json)
        ensures
            r@ == JsonTree::Text(s@),
    {
        Json::Text(s.to_owned())
    }

    /// The document that is this list.
    pub fn list(v: Vec<Json>) -> (r: Json)
        ensures
            r@ == JsonTree::List(trees(v@)),
    {
        let r = Json::List(v);
        assert(r@->List_0 =~= trees(v@));
        r
    }

    /// The document that is this object.
    pub fn object(v: Vec<(String, Json)>) -> (r: Json)
        ensures
            r@ == JsonTree::Object(fields(v@)),
    {
        let r = Json::Object(v);
        assert(r@->Object_0 =~= fields(v@));
        r
    }

    /// The value under `key`, where the document is an object that has one.
    pub fn field(&self, key: &str) -> (r: Option<&Json>)
        ensures
            tree_of(r) == self@.field(key@),
    {
        match self {
            Json::Object(v) => {
                assert(self@->Object_0 =~= fields(v@));
                assert(fields(v@).skip(0) =~= fields(v@));
                for i in 0..v.len()
                    invariant
                        value_of(fields(v@), key@) == value_of(fields(v@).skip(i as int), key@),
                        self@ == JsonTree::Object(fields(v@)),
                {
                    let ghost rest = fields(v@).skip(i as int);
                    assert(rest[0] == (v@[i as int].0@, v@[i as int].1@));
                    assert(rest.drop_first() =~= fields(v@).skip(i + 1));
                    if text::same(v[i].0.as_str(), key) {
                        return Some(&v[i].1);
                    }
                }
                assert(fields(v@).skip(v@.len() as int).len() == 0);
                None
            },
            _ => None,
        }
    }

    /// The item at `i`, where the document is a list that long.
    pub fn item(&self, i: usize) -> (r: Option<&Json>)
        ensures
            tree_of(r) == self@.item(i as int),
    {
        match self {
            Json::List(v) => if i < v.len() {
                Some(&v[i])
            } else {
                None
            },
            _ => None,
        }
    }

    /// The text, where the document is one.
    pub fn as_text(&self) -> (r: Option<String>)
        ensures
            r is Some <==> self@.as_text() is Some,
            r matches Some(s) ==> self@.as_text() == Some(s@),
    {
        match self {
            Json::Text(s) => Some(s.clone()),
            _ => None,
        }
    }
}

/// Adds one field to a list of fields.
pub fn put(v: &mut Vec<(String, Json)>, key: &str, value: Json)
    ensures
        fields(final(v)@) == fields(old(v)@).push((key@, value@)),
{
    v.push((key.to_owned(), value));
    assert(fields(v@) =~= fields(old(v)@).push((key@, value@)));
}

/// Adds one item to a list of documents.
pub fn append(v: &mut Vec<Json>, value: Json)
    ensures
        trees(final(v)@) == trees(old(v)@).push(value@),
{
    v.push(value);
    assert(trees(v@) =~= trees(old(v)@).push(value@));
}

/// An object with one field.
pub fn object1(key: &str, value: Json) -> (r: Json)
    ensures
        r@ == JsonTree::Object(seq![(key@, value@)]),
{
    let mut v: Vec<(String, Json)> = Vec::new();
    put(&mut v, key, value);
    assert(fields(v@) =~= seq![(key@, value@)]);
    Json::object(v)
}

/// An object with two fields.
pub fn object2(key0: &str, value0: Json, key1: &str, value1: Json) -> (r: Json)
    ensures
        r@ == JsonTree::Object(seq![(key0@, value0@), (key1@, value1@)]),
{
    let mut v: Vec<(String, Json)> = Vec::new();
    put(&mut v, key0, value0);
    put(&mut v, key1, value1);
    assert(fields(v@) =~= seq![(key0@, value0@), (key1@, value1@)]);
    Json::object(v)
}

/// An object with three fields.
pub fn object3(
    key0: &str,
    value0: Json,
    key1: &str,
    value1: Json,
    key2: &str,
    value2: Json,
) -> (r: Json)
    ensures
        r@ == JsonTree::Object(seq![(key0@, value0@), (key1@, value1@), (key2@, value2@)]),
{
    let mut v: Vec<(String, Json)> = Vec::new();
    put(&mut v, key0, value0);
    put(&mut v, key1, value1);
    put(&mut v, key2, value2);
    assert(fields(v@) =~= seq![(key0@, value0@), (key1@, value1@), (key2@, value2@)]);
    Json::object(v)
}

/// A list with one item.
pub fn list1(value: Json) -> (r: Json)
    ensures
        r@ == JsonTree::List(seq![value@]),
{
    let mut v: Vec<Json> = Vec::new();
    append(&mut v, value);
    assert(trees(v@) =~= seq![value@]);
    Json::list(v)
}

// ─────────────────────────── reading a document ───────────────────────────

/// `serde_json::Value`, the outside crate's own document type.
#[verifier::external_type_specification]
#[verifier::external_body]
pub struct ExValue(serde_json::Value);

/// The document that `serde_json::from_str` reads out of a text, where the
/// text is one.
pub uninterp spec fn json_document(text: Seq<char>) -> Option<JsonTree>;

/// What a `serde_json::Value` holds: its variants one for one, numbers by
/// their decimal text, an object's fields in the order the map is walked in.
pub uninterp spec fn value_tree(value: serde_json::Value) -> JsonTree;

/// `serde_json::from_str` into a `serde_json::Value`: the result is fixed by
/// the text, and it is an error exactly where the text is no document.
#[verifier::external_body]
fn read_value(text: &str) -> (r: Option<serde_json::Value>)
    ensures
        json_document(text@) == (match r {
            Some(value) => Some(value_tree(value)),
            None => None,
        }),
{
    serde_json::from_str(text).ok()
}

/// A `serde_json::Value` as a document of this library, variant for variant.
#[verifier::external_body]
fn from_value(value: serde_json::Value) -> (r: Json)
    ensures
        r@ == value_tree(value),
{
    match value {
        serde_json::Value::Null => Json::Null,
        serde_json::Value::Bool(b) => Json::Bool(b),
        serde_json::Value::Number(n) => Json::Number(n.to_string()),
        serde_json::Value::String(s) => Json::Text(s),
        serde_json::Value::Array(v) => Json::List(v.into_iter().map(from_value).collect()),
        serde_json::Value::Object(m) => {
            Json::Object(m.into_iter().map(|(k, v)| (k, from_value(v))).collect())
        },
    }
}

/// Reads a JSON document; `None` where the text is no document.
pub fn parse(text: &str) -> (r: Option<Json>)
    ensures
        json_document(text@) == (match r {
            Some(j) => Some(j@),
            None => None,
        }),
{
    match read_value(text) {
        Some(value) => Some(from_value(value)),
        None => None,
    }
}

// ───────────────────────────── laws ─────────────────────────────

/// The value under a key is that of the first field with it: a field before all
/// others is found by its key, and hides no other key.
pub proof fn law_fields_are_found(
    v: Seq<(Seq<char>, JsonTree)>,
    key: Seq<char>,
    other: Seq<char>,
    value: JsonTree,
)
    ensures
        JsonTree::Object(Seq::empty()).field(key) is None,
        JsonTree::Object(seq![(key, value)] + v).field(key) == Some(value),
        key != other ==> JsonTree::Object(seq![(key, value)] + v).field(other) == JsonTree::Object(
            v,
        ).field(other),
        JsonTree::Text(key).field(other) is None,
        JsonTree::Null.field(other) is None,
        JsonTree::Text(key).as_text() == Some(key),
        JsonTree::Object(v).as_text() is None,
        JsonTree::Null.as_text() is None,
        text_in(Some(JsonTree::Text(key))) == Some(key),
        text_in(None) is None,
{
    let all = seq![(key, value)] + v;
    assert(all[0] == (key, value));
    assert(all.drop_first() =~= v);
}

/// The items of a list are found by their places, and there are no others.
pub proof fn law_items_are_found(v: Seq<JsonTree>, i: int)
    ensures
        0 <= i < v.len() ==> JsonTree::List(v).item(i) == Some(v[i]),
        !(0 <= i < v.len()) ==> JsonTree::List(v).item(i) is None,
        JsonTree::Null.item(i) is None,
        0 <= i < v.len() ==> item_in(Some(JsonTree::List(v)), i) == Some(v[i]),
        item_in(None, i) is None,
{
}

/// A document says what it holds: each item of a list and each field of an
/// object, in order.
pub proof fn law_documents_say_what_they_hold(
    s: String,
    b: bool,
    v: Vec<Json>,
    f: Vec<(String, Json)>,
    i: int,
)
    ensures
        Json::Null@ == JsonTree::Null,
        Json::Bool(b)@ == JsonTree::Bool(b),
        Json::Number(s)@ == JsonTree::Number(s@),
        Json::Text(s)@ == JsonTree::Text(s@),
        Json::List(v)@ matches JsonTree::List(items) && items.len() == v@.len() && (0 <= i
            < v@.len() ==> items[i] == v@[i]@),
        trees(v@).len() == v@.len(),
        0 <= i < v@.len() ==> trees(v@)[i] == v@[i]@,
        fields(f@).len() == f@.len(),
        0 <= i < f@.len() ==> fields(f@)[i] == (f@[i].0@, f@[i].1@),
{
}

} // verus!
