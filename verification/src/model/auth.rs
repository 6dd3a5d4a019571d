//! The resolved user identity and the errors a credential verifier can raise.

use vstd::prelude::*;

verus! {

/// Mathematical image of a [`User`]: every string as a sequence of characters.
pub struct UserView {
    pub id: Seq<char>,
    pub name: Seq<char>,
    pub department: Seq<char>,
    pub roles: Seq<Seq<char>>,
}

/// A user identity as resolved by a verifier. `roles` is an ordered sequence;
/// duplicates are preserved as received.
#[derive(Debug, PartialEq)]
pub struct User {
    pub id: String,
    pub name: String,
    pub department: String,
    pub roles: Vec<String>,
}

impl View for User {
    type V = UserView;

    open spec fn view(&self) -> UserView {
        UserView {
            id: self.id@,
            name: self.name@,
            department: self.department@,
            roles: self.roles.deep_view(),
        }
    }
}

impl Clone for User {
    fn clone(&self) -> (r: User)
        ensures
            r@ == self@,
    {
        let roles = self.roles.clone();
        proof {
            assert(roles.deep_view() =~= self.roles.deep_view());
            vstd::std_specs::vec::vec_clone_deep_view_proof(self.roles, roles);
        }
        User {
            id: self.id.clone(),
            name: self.name.clone(),
            department: self.department.clone(),
            roles,
        }
    }
}

/// Mathematical image of an [`Error`].
pub enum ErrorView {
    WrongUserPass,
    ExpiredPass,
    NoAccess,
    OtherAuth(Seq<char>),
    ServiceError(Seq<char>),
}

/// What a credential verifier reports when it does not resolve an identity.
#[derive(Debug)]
pub enum Error {
    WrongUserPass(),
    ExpiredPass(),
    NoAccess(),
    OtherAuth(String),
    ServiceError(String),
}

impl View for Error {
    type V = ErrorView;

    open spec fn view(&self) -> ErrorView {
        match self {
            Error::WrongUserPass() => ErrorView::WrongUserPass,
            Error::ExpiredPass() => ErrorView::ExpiredPass,
            Error::NoAccess() => ErrorView::NoAccess,
            Error::OtherAuth(s) => ErrorView::OtherAuth(s@),
            Error::ServiceError(s) => ErrorView::ServiceError(s@),
        }
    }
}

impl Error {
    /// A short rendering of the error kind, for diagnostics.
    pub fn describe(&self) -> (r: &'static str)
        ensures
            r@ == self@.spec_describe(),
    {
        match self {
            Error::WrongUserPass() => "Wrong password",
            Error::ExpiredPass() => "Expired password",
            Error::NoAccess() => "No access",
            Error::OtherAuth(_) => "Other Auth error",
            Error::ServiceError(_) => "Auth Service error",
        }
    }
}

impl ErrorView {
    pub open spec fn spec_describe(self) -> Seq<char> {
        match self {
            ErrorView::WrongUserPass => "Wrong password"@,
            ErrorView::ExpiredPass => "Expired password"@,
            ErrorView::NoAccess => "No access"@,
            ErrorView::OtherAuth(_) => "Other Auth error"@,
            ErrorView::ServiceError(_) => "Auth Service error"@,
        }
    }
}

} // verus!
