use vstd::prelude::*;

verus! {

/// Mathematical image of a store [`Error`].
pub enum ErrorView {
    NoSession,
    Other(Seq<char>),
}

/// What a session store reports when an operation does not succeed.
#[derive(Debug)]
pub enum Error {
    NoSession(),
    Other(String),
}

impl View for Error {
    type V = ErrorView;

    open spec fn view(&self) -> ErrorView {
        match self {
            Error::NoSession() => ErrorView::NoSession,
            Error::Other(s) => ErrorView::Other(s@),
        }
    }
}

} // verus!
