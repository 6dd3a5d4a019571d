//! The remote credential verifier's decision logic.
//!
//! The remote service answers either with an XML document describing the
//! user, or with a bare decimal status code. Everything that can be decided
//! from plain values is here and verified: building the two request URLs,
//! classifying a response body, mapping status codes to error kinds, and
//! assembling the resolved identity. The HTTP transport, the retry policy
//! and the XML deserialization live outside the library and hand their
//! results in as plain values.

use vstd::prelude::*;
use vstd::string::StringExecFns;

use crate::model::auth;
use crate::utils::num::{i64_to_dec, parse_i32, spec_dec_signed, spec_parse_i32, u64_to_dec, spec_dec};
use crate::utils::secret_str::SecretString;
use crate::utils::urlenc::{url_encode, url_encoded};

verus! {

/// The remote verifier's endpoint and credentials. The HTTP client that
/// carries the calls lives with the caller.
pub struct Auth {
    pub ws_url: String,
    pub ws_user: String,
    pub ws_pass: SecretString,
    pub app_code: String,
}

/// What the XML user-details document carries, as plain values.
pub struct UserDetails {
    pub first_name: String,
    pub last_name: String,
    pub organization_unit: Option<String>,
}

impl Auth {
    /// Remembers the endpoint; every parameter must be non-empty.
    pub fn new(ws_url: &str, ws_user: &str, ws_pass: SecretString, app_code: &str) -> (r: Result<
        Auth,
        String,
    >)
        ensures
            r matches Ok(a) ==> a.ws_url@ == ws_url@ && a.ws_user@ == ws_user@ && a.ws_pass@
                == ws_pass@ && a.app_code@ == app_code@,
            r is Err <==> ws_url@.len() == 0 || ws_user@.len() == 0 || ws_pass@.len() == 0
                || app_code@.len() == 0,
    {
        if ws_url.is_empty() || ws_user.is_empty() || ws_pass.reveal_secret().is_empty()
            || app_code.is_empty() {
            return Err(String::from_str("Empty auth params"));
        }
        Ok(
            Auth {
                ws_url: ws_url.to_owned(),
                ws_user: ws_user.to_owned(),
                ws_pass,
                app_code: app_code.to_owned(),
            },
        )
    }

    /// The authentication URL: base, app code, user and secret, the three
    /// path segments percent-encoded.
    pub fn make_details_url(&self, user: &str, pass: &SecretString) -> (r: String)
        ensures
            r@ == self.ws_url@ + "/authenticate_details/"@ + url_encoded(self.app_code@) + "/"@
                + url_encoded(user@) + "/"@ + url_encoded(pass@),
    {
        let mut r = self.ws_url.clone();
        r.append("/authenticate_details/");
        let a = url_encode(self.app_code.as_str());
        r.append(a.as_str());
        r.append("/");
        let u = url_encode(user);
        r.append(u.as_str());
        r.append("/");
        let p = url_encode(pass.reveal_secret());
        r.append(p.as_str());
        r
    }

    /// The role-list URL: base, app code and user, both segments
    /// percent-encoded.
    pub fn make_roles_url(&self, user: &str) -> (r: String)
        ensures
            r@ == self.ws_url@ + "/get_roles/"@ + url_encoded(self.app_code@) + "/"@
                + url_encoded(user@),
    {
        let mut r = self.ws_url.clone();
        r.append("/get_roles/");
        let a = url_encode(self.app_code.as_str());
        r.append(a.as_str());
        r.append("/");
        let u = url_encode(user);
        r.append(u.as_str());
        r
    }
}

/// A response body is an XML document exactly when it opens with `<`;
/// anything else is read as a decimal status code.
pub fn body_is_xml(body: &str) -> (r: bool)
    ensures
        r <==> body@.len() > 0 && body@[0] == '<',
{
    if body.is_empty() {
        return false;
    }
    vstd::string::StrSliceExecFns::get_char(body, 0) == '<'
}

/// The error kind a numeric status code stands for.
pub open spec fn spec_err_of_code(code: int) -> auth::ErrorView {
    if code == 1 || code == 4 || code == 5 {
        auth::ErrorView::WrongUserPass
    } else if code == 2 || code == 3 {
        auth::ErrorView::ExpiredPass
    } else if 6 <= code <= 9 {
        auth::ErrorView::OtherAuth("Code "@ + spec_dec(code))
    } else {
        auth::ErrorView::ServiceError("Auth Service error: "@ + spec_dec_signed(code))
    }
}

/// Maps a status code to its error kind: 1, 4 and 5 are a wrong user or
/// password, 2 and 3 an expired password, 6 to 9 carry their code, and
/// everything else is a service error.
pub fn map_err_codes(res_code: i32) -> (r: auth::Error)
    ensures
        r@ == spec_err_of_code(res_code as int),
{
    match res_code {
        1 | 4 | 5 => auth::Error::WrongUserPass(),
        2 | 3 => auth::Error::ExpiredPass(),
        6 | 7 | 8 | 9 => {
            let mut m = String::from_str("Code ");
            let d = u64_to_dec(res_code as u64);
            m.append(d.as_str());
            auth::Error::OtherAuth(m)
        },
        _ => {
            let mut m = String::from_str("Auth Service error: ");
            let d = i64_to_dec(res_code as i64);
            m.append(d.as_str());
            auth::Error::ServiceError(m)
        },
    }
}

/// The verdict a non-XML response body carries.
pub open spec fn spec_status_verdict(body: Seq<char>) -> auth::ErrorView {
    match spec_parse_i32(body) {
        Some(code) => spec_err_of_code(code),
        None => auth::ErrorView::ServiceError("can't parse to int "@ + body),
    }
}

/// Reads a non-XML response body as a status code and maps it; a body that
/// is no decimal integer is a service error.
pub fn process_status_body(body: &str) -> (r: auth::Error)
    ensures
        r@ == spec_status_verdict(body@),
{
    match parse_i32(body) {
        Some(code) => map_err_codes(code),
        None => {
            let mut m = String::from_str("can't parse to int ");
            m.append(body);
            auth::Error::ServiceError(m)
        },
    }
}

/// Assembles the resolved identity from the two remote answers: an empty
/// role list means no access; otherwise the name is first and last name
/// joined by a space, and the department is the organization unit, if any.
pub fn resolve_login(user: &str, details: UserDetails, roles: Vec<String>) -> (r: Result<
    auth::User,
    auth::Error,
>)
    ensures
        roles@.len() == 0 ==> (r matches Err(e) && e@ is NoAccess),
        roles@.len() > 0 ==> (r matches Ok(u) && u@ == (auth::UserView {
            id: user@,
            name: details.first_name@ + " "@ + details.last_name@,
            department: match details.organization_unit {
                Some(d) => d@,
                None => Seq::<char>::empty(),
            },
            roles: roles.deep_view(),
        })),
{
    if roles.is_empty() {
        return Err(auth::Error::NoAccess());
    }
    let mut name = details.first_name;
    name.append(" ");
    name.append(details.last_name.as_str());
    let department = match details.organization_unit {
        Some(d) => d,
        None => String::new(),
    };
    Ok(auth::User { id: user.to_owned(), name, department, roles })
}

} // verus!
