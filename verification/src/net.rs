//! HTTP exchanges as plain values: the requests the library asks for and the
//! replies it is handed.

use vstd::prelude::*;
use crate::error::{AppError, ErrorView};
use crate::json::{Json, JsonTree};

verus! {

/// The verb of a request.
#[derive(Clone, Copy, Debug, PartialEq, Eq, Structural)]
pub enum Method {
    Get,
    Post,
    Put,
    Patch,
    Delete,
}

/// What a request carries.
#[derive(Debug, PartialEq, Eq)]
pub enum Body {
    Empty,
    Form(Vec<(String, String)>),
    Json(Json),
}

/// One HTTP request. `timeout` is in seconds, where the request needs another
/// than the client's own.
#[derive(Debug, PartialEq, Eq)]
pub struct Request {
    pub method: Method,
    pub url: String,
    pub headers: Vec<(String, String)>,
    pub body: Body,
    pub timeout: Option<u64>,
}

/// What a [`Body`] holds.
#[verifier::ext_equal]
pub enum BodyView {
    Empty,
    Form(Seq<(Seq<char>, Seq<char>)>),
    Json(JsonTree),
}

/// What a [`Request`] says.
#[verifier::ext_equal]
pub struct RequestView {
    pub method: Method,
    pub url: Seq<char>,
    pub headers: Seq<(Seq<char>, Seq<char>)>,
    pub body: BodyView,
    pub timeout: Option<u64>,
}

/// The contents of a list of names and values.
pub open spec fn pairs(v: Seq<(String, String)>) -> Seq<(Seq<char>, Seq<char>)> {
    v.map_values(|p: (String, String)| (p.0@, p.1@))
}

impl View for Body {
    type V = BodyView;

    open spec fn view(&self) -> BodyView {
        match *self {
            Body::Empty => BodyView::Empty,
            Body::Form(v) => BodyView::Form(pairs(v@)),
            Body::Json(j) => BodyView::Json(j@),
        }
    }
}

impl View for Request {
    type V = RequestView;

    open spec fn view(&self) -> RequestView {
        RequestView {
            method: self.method,
            url: self.url@,
            headers: pairs(self.headers@),
            body: self.body@,
            timeout: self.timeout,
        }
    }
}

/// How an exchange ended.
#[derive(Debug, PartialEq, Eq)]
pub enum Reply {
    /// No answer came; the client's words.
    Failed(String),
    /// The answer has an error status: the status line, the text of the
    /// answer where it could be read, and the client's words.
    Refused { status: String, detail: String, message: String },
    /// The answer has a success status but its text could not be read.
    Broken(String),
    /// The text of an answer with a success status.
    Body(String),
}

/// The text of a successful exchange, or the client's words for its failure.
pub open spec fn accepted(reply: Reply) -> Result<Seq<char>, ErrorView> {
    match reply {
        Reply::Failed(e) => Err(ErrorView::Network(e@)),
        Reply::Refused { status, detail, message } => Err(ErrorView::Network(message@)),
        Reply::Broken(e) => Err(ErrorView::Network(e@)),
        Reply::Body(s) => Ok(s@),
    }
}

impl Reply {
    /// The text of a successful exchange, or the client's words for its
    /// failure.
    pub fn accept(self) -> (r: Result<String, AppError>)
        ensures
            crate::error::text_outcome(r) == accepted(self),
    {
        match self {
            Reply::Failed(e) => Err(AppError::Network(e)),
            Reply::Refused { status: _, detail: _, message } => Err(AppError::Network(message)),
            Reply::Broken(e) => Err(AppError::Network(e)),
            Reply::Body(s) => Ok(s),
        }
    }
}

/// Adds one name and value to a list of them.
pub fn put_pair(v: &mut Vec<(String, String)>, name: &str, value: &str)
    ensures
        pairs(final(v)@) == pairs(old(v)@).push((name@, value@)),
{
    v.push((name.to_owned(), value.to_owned()));
    assert(pairs(v@) =~= pairs(old(v)@).push((name@, value@)));
}

/// A list of one name and value.
pub fn pairs1(name: &str, value: &str) -> (r: Vec<(String, String)>)
    ensures
        pairs(r@) == seq![(name@, value@)],
{
    let mut v: Vec<(String, String)> = Vec::new();
    put_pair(&mut v, name, value);
    assert(pairs(v@) =~= seq![(name@, value@)]);
    v
}

/// A list of two names and values.
pub fn pairs2(name0: &str, value0: &str, name1: &str, value1: &str) -> (r: Vec<(String, String)>)
    ensures
        pairs(r@) == seq![(name0@, value0@), (name1@, value1@)],
{
    let mut v: Vec<(String, String)> = Vec::new();
    put_pair(&mut v, name0, value0);
    put_pair(&mut v, name1, value1);
    assert(pairs(v@) =~= seq![(name0@, value0@), (name1@, value1@)]);
    v
}

/// A list of three names and values.
pub fn pairs3(
    name0: &str,
    value0: &str,
    name1: &str,
    value1: &str,
    name2: &str,
    value2: &str,
) -> (r: Vec<(String, String)>)
    ensures
        pairs(r@) == seq![(name0@, value0@), (name1@, value1@), (name2@, value2@)],
{
    let mut v: Vec<(String, String)> = Vec::new();
    put_pair(&mut v, name0, value0);
    put_pair(&mut v, name1, value1);
    put_pair(&mut v, name2, value2);
    assert(pairs(v@) =~= seq![(name0@, value0@), (name1@, value1@), (name2@, value2@)]);
    v
}

// ───────────────────────────── laws ─────────────────────────────

/// An exchange gives its text exactly where it succeeded, and else the client's
/// own words for what went wrong.
pub proof fn law_exchanges(reply: Reply)
    ensures
        accepted(reply) is Ok <==> reply is Body,
        reply matches Reply::Body(s) ==> accepted(reply) == Ok::<Seq<char>, ErrorView>(s@),
        reply matches Reply::Failed(e) ==> accepted(reply) == Err::<Seq<char>, ErrorView>(
            ErrorView::Network(e@),
        ),
        reply matches Reply::Broken(e) ==> accepted(reply) == Err::<Seq<char>, ErrorView>(
            ErrorView::Network(e@),
        ),
        reply matches Reply::Refused { status, detail, message } ==> accepted(reply) == Err::<
            Seq<char>,
            ErrorView,
        >(ErrorView::Network(message@)),
{
}

/// Names and values keep their order, and a request says its own method, URL,
/// headers, body and timeout.
pub proof fn law_requests_say_what_they_hold(v: Seq<(String, String)>, i: int, r: Request)
    ensures
        pairs(v).len() == v.len(),
        0 <= i < v.len() ==> pairs(v)[i] == (v[i].0@, v[i].1@),
        r@.method == r.method,
        r@.url == r.url@,
        r@.headers == pairs(r.headers@),
        r@.body == r.body@,
        r@.timeout == r.timeout,
        r.body is Empty ==> r.body@ == BodyView::Empty,
        r.body matches Body::Form(f) ==> r.body@ == BodyView::Form(pairs(f@)),
        r.body matches Body::Json(j) ==> r.body@ == BodyView::Json(j@),
{
}

} // verus!
