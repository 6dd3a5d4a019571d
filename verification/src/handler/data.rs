//! The user-info shape returned to the upstream proxy.

use vstd::prelude::*;

use crate::model;
use crate::model::auth::UserView;

verus! {

/// The user identity as emitted in the `X-User-Info` response header.
#[derive(Debug, PartialEq)]
pub struct User {
    pub id: String,
    pub name: String,
    pub department: String,
    pub roles: Vec<String>,
}

impl View for User {
    type V = UserView;

    open spec fn view(&self) -> UserView {
        UserView {
            id: self.id@,
            name: self.name@,
            department: self.department@,
            roles: self.roles.deep_view(),
        }
    }
}

impl From<model::auth::User> for User {
    fn from(user: model::auth::User) -> (r: User)
        ensures
            r@ == user@,
    {
        User {
            id: user.id,
            name: user.name,
            department: user.department,
            roles: user.roles,
        }
    }
}

impl vstd::std_specs::convert::FromSpecImpl<model::auth::User> for User {
    open spec fn obeys_from_spec() -> bool {
        false
    }

    open spec fn from_spec(user: model::auth::User) -> User {
        arbitrary()
    }
}

} // verus!
