//! The error taxonomy surfaced at the HTTP boundary.
//!
//! Verifier and store errors are translated here; their internal detail never
//! reaches a response body. `BadRequest` keeps a human message, every
//! server-side failure renders a constant `Internal Server Error`.

use vstd::prelude::*;
use vstd::string::StringExecFns;

use crate::model::{auth, store};

verus! {

/// Mathematical image of an [`ApiError`].
pub enum ApiErrorView {
    BadRequest(Seq<char>, Seq<char>),
    Server(Seq<char>),
    WrongUserPass,
    ExpiredPass,
    ExpiredSession,
    NoSession,
    NoAccess,
    Other(Seq<char>),
}

/// An error as classified for the HTTP response: `BadRequest` maps to 400,
/// `Server` and `Other` to 500, everything else to 401.
#[derive(Debug)]
pub enum ApiError {
    BadRequest(String, String),
    Server(String),
    WrongUserPass(),
    ExpiredPass(),
    ExpiredSession(),
    NoSession(),
    NoAccess(),
    Other(String),
}

impl View for ApiError {
    type V = ApiErrorView;

    open spec fn view(&self) -> ApiErrorView {
        match self {
            ApiError::BadRequest(m, d) => ApiErrorView::BadRequest(m@, d@),
            ApiError::Server(m) => ApiErrorView::Server(m@),
            ApiError::WrongUserPass() => ApiErrorView::WrongUserPass,
            ApiError::ExpiredPass() => ApiErrorView::ExpiredPass,
            ApiError::ExpiredSession() => ApiErrorView::ExpiredSession,
            ApiError::NoSession() => ApiErrorView::NoSession,
            ApiError::NoAccess() => ApiErrorView::NoAccess,
            ApiError::Other(m) => ApiErrorView::Other(m@),
        }
    }
}

impl ApiErrorView {
    /// The HTTP status this error renders as.
    pub open spec fn spec_status(self) -> u16 {
        match self {
            ApiErrorView::BadRequest(_, _) => 400u16,
            ApiErrorView::Server(_) => 500u16,
            ApiErrorView::Other(_) => 500u16,
            _ => 401u16,
        }
    }

    /// The response body this error renders as. Only `BadRequest` forwards
    /// its message; all 500s render a constant.
    pub open spec fn spec_message(self) -> Seq<char> {
        match self {
            ApiErrorView::BadRequest(m, _) => m,
            ApiErrorView::Server(_) => "Internal Server Error"@,
            ApiErrorView::Other(_) => "Internal Server Error"@,
            ApiErrorView::WrongUserPass => "Wrong user or password"@,
            ApiErrorView::ExpiredPass => "Password expired"@,
            ApiErrorView::ExpiredSession => "Session expired"@,
            ApiErrorView::NoSession => "No session"@,
            ApiErrorView::NoAccess => "No access"@,
        }
    }

    /// How a verifier error surfaces over HTTP.
    pub open spec fn spec_from_auth(e: auth::ErrorView) -> ApiErrorView {
        match e {
            auth::ErrorView::WrongUserPass => ApiErrorView::WrongUserPass,
            auth::ErrorView::ExpiredPass => ApiErrorView::ExpiredPass,
            auth::ErrorView::NoAccess => ApiErrorView::NoAccess,
            auth::ErrorView::OtherAuth(s) => ApiErrorView::Other(s),
            auth::ErrorView::ServiceError(s) => ApiErrorView::Other(s),
        }
    }

    /// How a store error surfaces over HTTP.
    pub open spec fn spec_from_store(e: store::ErrorView) -> ApiErrorView {
        match e {
            store::ErrorView::NoSession => ApiErrorView::NoSession,
            store::ErrorView::Other(s) => ApiErrorView::Other(s),
        }
    }
}

impl ApiError {
    /// The HTTP status code for this error.
    pub fn status_code(&self) -> (s: u16)
        ensures
            s == self@.spec_status(),
    {
        match self {
            ApiError::BadRequest(_, _) => 400,
            ApiError::Server(_) => 500,
            ApiError::Other(_) => 500,
            _ => 401,
        }
    }

    /// The response body for this error.
    pub fn message(&self) -> (r: String)
        ensures
            r@ == self@.spec_message(),
    {
        match self {
            ApiError::BadRequest(m, _) => m.clone(),
            ApiError::Server(_) => String::from_str("Internal Server Error"),
            ApiError::Other(_) => String::from_str("Internal Server Error"),
            ApiError::WrongUserPass() => String::from_str("Wrong user or password"),
            ApiError::ExpiredPass() => String::from_str("Password expired"),
            ApiError::ExpiredSession() => String::from_str("Session expired"),
            ApiError::NoSession() => String::from_str("No session"),
            ApiError::NoAccess() => String::from_str("No access"),
        }
    }
}

impl From<auth::Error> for ApiError {
    fn from(error: auth::Error) -> (r: ApiError)
        ensures
            r@ == ApiErrorView::spec_from_auth(error@),
    {
        match error {
            auth::Error::WrongUserPass() => ApiError::WrongUserPass(),
            auth::Error::ExpiredPass() => ApiError::ExpiredPass(),
            auth::Error::NoAccess() => ApiError::NoAccess(),
            auth::Error::OtherAuth(s) => ApiError::Other(s),
            auth::Error::ServiceError(s) => ApiError::Other(s),
        }
    }
}

impl vstd::std_specs::convert::FromSpecImpl<auth::Error> for ApiError {
    open spec fn obeys_from_spec() -> bool {
        false
    }

    open spec fn from_spec(error: auth::Error) -> ApiError {
        arbitrary()
    }
}

impl From<store::Error> for ApiError {
    fn from(error: store::Error) -> (r: ApiError)
        ensures
            r@ == ApiErrorView::spec_from_store(error@),
    {
        match error {
            store::Error::NoSession() => ApiError::NoSession(),
            store::Error::Other(s) => ApiError::Other(s),
        }
    }
}

impl vstd::std_specs::convert::FromSpecImpl<store::Error> for ApiError {
    open spec fn obeys_from_spec() -> bool {
        false
    }

    open spec fn from_spec(error: store::Error) -> ApiError {
        arbitrary()
    }
}

} // verus!
