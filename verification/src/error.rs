//! What can go wrong.
use vstd::prelude::*;

verus! {

/// An error of this library, or of a service around it.
#[derive(Debug)]
pub enum Error {
    /// The repository has no working directory.
    NoWorkDir,
    /// A rule of this library was broken.
    Generic(String),
    /// A number does not fit its type.
    OutOfRange,
    /// A service around the library failed, with its message.
    Service(String),
}

/// What an error says.
pub enum ErrorView {
    NoWorkDir,
    Generic(Seq<char>),
    OutOfRange,
    Service(Seq<char>),
}

impl View for Error {
    type V = ErrorView;

    open spec fn view(&self) -> ErrorView {
        match *self {
            Error::NoWorkDir => ErrorView::NoWorkDir,
            Error::Generic(msg) => ErrorView::Generic(msg@),
            Error::OutOfRange => ErrorView::OutOfRange,
            Error::Service(msg) => ErrorView::Service(msg@),
        }
    }
}

/// `prefix`, a line feed, and `err`.
pub open spec fn error_text(prefix: Seq<char>, err: Seq<char>) -> Seq<char> {
    prefix.push('\n') + err
}

/// Builds the text of an error message.
pub fn error_message(prefix: &str, err: &str) -> (text: String)
    ensures
        text@ == error_text(prefix@, err@),
{
    let mut text = prefix.to_owned();
    text.push('\n');
    text.append(err);
    text
}

} // verus!
