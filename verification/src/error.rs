//! The errors that library functions report.

use vstd::prelude::*;

verus! {

/// What went wrong.
#[derive(Debug, PartialEq, Eq)]
pub enum AppError {
    /// A condition the user interface has a message for, by its code.
    Code(String),
    /// A condition described in words.
    Other(String),
    /// An HTTP exchange failed; the client's own words.
    Network(String),
    /// The local store failed; its own words.
    Store(String),
    /// A subscription list could not be read or written.
    Opml(String),
}

/// What an [`AppError`] says.
pub enum ErrorView {
    Code(Seq<char>),
    Other(Seq<char>),
    Network(Seq<char>),
    Store(Seq<char>),
    Opml(Seq<char>),
}

impl View for AppError {
    type V = ErrorView;

    open spec fn view(&self) -> ErrorView {
        match *self {
            AppError::Code(s) => ErrorView::Code(s@),
            AppError::Other(s) => ErrorView::Other(s@),
            AppError::Network(s) => ErrorView::Network(s@),
            AppError::Store(s) => ErrorView::Store(s@),
            AppError::Opml(s) => ErrorView::Opml(s@),
        }
    }
}

/// What a fallible function that gives text came back with.
pub open spec fn text_outcome(r: Result<String, AppError>) -> Result<Seq<char>, ErrorView> {
    match r {
        Ok(s) => Ok(s@),
        Err(e) => Err(e@),
    }
}

impl AppError {
    /// The error with this code.
    pub fn code(code: &str) -> (r: AppError)
        ensures
            r@ == ErrorView::Code(code@),
    {
        AppError::Code(code.to_owned())
    }

    /// The error in these words.
    pub fn other(message: &str) -> (r: AppError)
        ensures
            r@ == ErrorView::Other(message@),
    {
        AppError::Other(message.to_owned())
    }

    /// The code or the words inside.
    pub fn message(&self) -> (r: String)
        ensures
            r@ == (match self@ {
                ErrorView::Code(s) => s,
                ErrorView::Other(s) => s,
                ErrorView::Network(s) => s,
                ErrorView::Store(s) => s,
                ErrorView::Opml(s) => s,
            }),
    {
        match self {
            AppError::Code(s) => s.clone(),
            AppError::Other(s) => s.clone(),
            AppError::Network(s) => s.clone(),
            AppError::Store(s) => s.clone(),
            AppError::Opml(s) => s.clone(),
        }
    }
}

/// An error says its own kind and words.
pub proof fn law_errors_say_what_they_hold(s: String, e: AppError)
    ensures
        AppError::Code(s)@ == ErrorView::Code(s@),
        AppError::Other(s)@ == ErrorView::Other(s@),
        AppError::Network(s)@ == ErrorView::Network(s@),
        AppError::Store(s)@ == ErrorView::Store(s@),
        AppError::Opml(s)@ == ErrorView::Opml(s@),
        text_outcome(Ok(s)) == Ok::<Seq<char>, ErrorView>(s@),
        text_outcome(Err(e)) == Err::<Seq<char>, ErrorView>(e@),
{
}

} // verus!
