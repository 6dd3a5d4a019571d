//! Logging in: check the credentials against the verifier chain, mint a
//! high-entropy session id, persist the record, and answer with the id and
//! the resolved identity.

use vstd::prelude::*;

use crate::handler::error::{ApiError, ApiErrorView};
use crate::model::config::SessionConfig;
use crate::model::data::{spec_sweep, SessionData, SessionDataView};
use crate::utils::secret_str::SecretString;
use crate::AuthService;
use crate::SessionStore;

verus! {

/// The login request body: both fields must be present.
pub struct Request {
    pub user: Option<String>,
    pub pass: Option<String>,
}

/// The identity part of the login response.
pub struct User {
    pub name: String,
    pub department: String,
    pub roles: Vec<String>,
}

/// The login response: the fresh session id and the identity.
pub struct Response {
    pub session_id: String,
    pub user: User,
}

/// The URL-safe base64 rendering of a byte string; a function of the bytes
/// alone.
pub uninterp spec fn b64url_of(bytes: Seq<u8>) -> Seq<char>;

/// The URL-safe base64 alphabet, plus the `=` padding character.
pub open spec fn spec_b64url_char(c: char) -> bool {
    ||| ('A' <= c && c <= 'Z')
    ||| ('a' <= c && c <= 'z')
    ||| ('0' <= c && c <= '9')
    ||| c == '-'
    ||| c == '_'
    ||| c == '='
}

/// Relies on base64's URL_SAFE engine: four characters for every three
/// bytes of input, padded, deterministic, and drawn from the URL-safe
/// alphabet.
#[verifier::external_body]
fn b64url_encode(bytes: &Vec<u8>) -> (r: String)
    ensures
        r@ == b64url_of(bytes@),
        r@.len() == 4 * ((bytes@.len() + 2) / 3),
        forall|i: int| 0 <= i < r@.len() ==> spec_b64url_char(#[trigger] r@[i]),
{
    base64::Engine::encode(&base64::prelude::BASE64_URL_SAFE, bytes.as_slice())
}

/// Relies on rand's OsRng: fills the buffer from the operating system's
/// entropy source; nothing is promised of the values.
#[verifier::external_body]
fn fill_random_bytes(buf: &mut Vec<u8>)
    ensures
        final(buf)@.len() == old(buf)@.len(),
{
    rand::RngCore::fill_bytes(&mut rand::rngs::OsRng, buf.as_mut_slice());
}

/// A fresh opaque session id: the URL-safe base64 rendering of 128 random
/// bytes, so 172 characters. Two calls are expected to differ; of the
/// values nothing more is promised.
pub fn generate_session() -> (r: String)
    ensures
        r@.len() == 172,
        exists|b: Seq<u8>| b.len() == 128 && r@ == #[trigger] b64url_of(b),
        forall|i: int| 0 <= i < r@.len() ==> spec_b64url_char(#[trigger] r@[i]),
{
    let mut buf: Vec<u8> = vec![0u8; 128];
    fill_random_bytes(&mut buf);
    let r = b64url_encode(&buf);
    proof {
        assert(buf@.len() == 128 && r@ == b64url_of(buf@));
    }
    r
}

/// The record a fresh login persists: the resolved identity, pinned to
/// `ip`, valid for `session_timeout` milliseconds from `now` and last used
/// at `now`.
pub fn new_session_record(user: crate::model::auth::User, ip: &str, now: i64, session_timeout: i64) -> (r:
    SessionData)
    requires
        i64::MIN <= now as int + session_timeout as int <= i64::MAX,
    ensures
        r@ == (SessionDataView {
            user: user@,
            ip: ip@,
            valid_till: now as int + session_timeout as int,
            last_access: now as int,
        }),
{
    SessionData { user, ip: ip.to_owned(), valid_till: now + session_timeout, last_access: now }
}

/// The login decision. A missing field is a wrong user or password; a
/// verifier failure surfaces as its mapped kind; on success a record
/// pinned to `ip`, valid for `session_timeout` and last used at `now`, is
/// stored under a fresh 172-character id, and both come back — owed, when
/// the store cannot fault.
pub fn handler<A: AuthService, S: SessionStore>(
    auth: &A,
    store: &mut S,
    config: &SessionConfig,
    ip: &str,
    payload: Request,
    now: i64,
) -> (r: Result<Response, ApiError>)
    requires
        i64::MIN <= now as int + config.session_timeout as int <= i64::MAX,
    ensures
        final(store).may_fail() == old(store).may_fail(),
        payload.user is None || payload.pass is None ==> (r matches Err(e) && e
            == ApiError::WrongUserPass() && final(store).sessions() == old(store).sessions()),
        (match (payload.user, payload.pass) {
            (Some(u), Some(p)) => match auth.spec_login(u@, p@) {
                Err(ev) => (r matches Err(e) && e@ == ApiErrorView::spec_from_auth(ev)) && final(store).sessions() == old(store).sessions(),
                Ok(uv) => {
                    &&& r matches Ok(resp) ==> (resp.session_id@.len() == 172 && resp.user.name@
                        == uv.name && resp.user.department@ == uv.department
                        && resp.user.roles.deep_view() == uv.roles && final(store).sessions()
                        == spec_sweep(
                        old(store).sessions().insert(
                            resp.session_id@,
                            SessionDataView {
                                user: uv,
                                ip: ip@,
                                valid_till: now as int + config.session_timeout as int,
                                last_access: now as int,
                            },
                        ),
                        now as int,
                    ))
                    &&& r matches Err(e) ==> (e@ matches ApiErrorView::Other(_))
                    &&& !old(store).may_fail() ==> r is Ok
                },
            },
            _ => true,
        }),
{
    let user = match payload.user {
        Some(u) => u,
        None => {
            return Err(ApiError::WrongUserPass());
        },
    };
    let pass = match payload.pass {
        Some(p) => p,
        None => {
            return Err(ApiError::WrongUserPass());
        },
    };
    let secret = SecretString::from(pass);
    let res = match auth.login(user.as_str(), &secret) {
        Ok(u) => u,
        Err(e) => {
            return Err(ApiError::from(e));
        },
    };
    let session_id = generate_session();
    let data = new_session_record(res.clone(), ip, now, config.session_timeout);
    match store.add(session_id.as_str(), data, now) {
        Ok(()) => {},
        Err(e) => {
            return Err(ApiError::from(e));
        },
    }
    Ok(
        Response {
            session_id,
            user: User { name: res.name, department: res.department, roles: res.roles },
        },
    )
}

} // verus!
