//! Forward-auth session gateway library.
//!
//! Credentials are checked once by a configurable chain of verifiers; the
//! caller receives an opaque session token, and later requests are authorized
//! by presenting that token. Sessions are pinned to a client IP and bounded
//! by an absolute lifetime and an inactivity window.

use vstd::prelude::*;

pub mod auth;
pub mod handler;
pub mod model;
pub mod store;
pub mod utils;

use crate::model::auth::{ErrorView, UserView};
use crate::model::data::{spec_sweep, SessionData, SessionDataView};
use crate::utils::secret_str::SecretString;

verus! {

/// A pluggable session store, modelled as a map from session id to record.
///
/// All four operations take the wall-clock instant from the caller, so that
/// expiry is decided by the contract and not by a hidden clock. A backend is
/// free to fail with `Other` (a connection pool may be exhausted); it must
/// never invent success: every `Ok` and every `NoSession` pins the new map
/// down exactly.
pub trait SessionStore {
    /// The records currently held, as a map over character sequences.
    spec fn sessions(&self) -> Map<Seq<char>, SessionDataView>;

    /// Whether this backend can fail with a fault of its own (a lost
    /// connection, an exhausted pool). A backend that cannot owes the
    /// exact outcome on every call; no operation changes the answer.
    spec fn may_fail(&self) -> bool;

    /// Inserts `data` under `session_id`, overwriting, then sweeps.
    fn add(&mut self, session_id: &str, data: SessionData, now: i64) -> (r: Result<
        (),
        model::store::Error,
    >)
        ensures
            r matches Ok(()) ==> final(self).sessions() == spec_sweep(
                old(self).sessions().insert(session_id@, data@),
                now as int,
            ),
            r matches Err(e) ==> e@ matches model::store::ErrorView::Other(_),
            final(self).may_fail() == old(self).may_fail(),
            !old(self).may_fail() ==> r is Ok,
    ;

    /// Sweeps, then returns a snapshot of the record, if one survives.
    fn get(&mut self, session_id: &str, now: i64) -> (r: Result<SessionData, model::store::Error>)
        ensures
            ({
                let swept = spec_sweep(old(self).sessions(), now as int);
                &&& r matches Ok(d) ==> final(self).sessions() == swept && swept.dom().contains(
                    session_id@,
                ) && d@ == swept[session_id@]
                &&& (r matches Err(e) && e@ is NoSession) ==> final(self).sessions() == swept
                    && !swept.dom().contains(session_id@)
                &&& final(self).may_fail() == old(self).may_fail()
                &&& !old(self).may_fail() ==> (r is Ok || (r matches Err(e) && e@ is NoSession))
            }),
    ;

    /// Removes the record, reporting `NoSession` when none was present.
    fn remove(&mut self, session_id: &str) -> (r: Result<(), model::store::Error>)
        ensures
            r matches Ok(()) ==> old(self).sessions().dom().contains(session_id@) && final(self).sessions() == old(self).sessions().remove(session_id@),
            (r matches Err(e) && e@ is NoSession) ==> !old(self).sessions().dom().contains(
                session_id@,
            ) && final(self).sessions() == old(self).sessions(),
            final(self).may_fail() == old(self).may_fail(),
            !old(self).may_fail() ==> (r is Ok || (r matches Err(e) && e@ is NoSession)),
    ;

    /// Sweeps, then updates `last_access` of the record in place.
    fn mark_last_used(&mut self, session_id: &str, now: i64) -> (r: Result<
        (),
        model::store::Error,
    >)
        ensures
            ({
                let swept = spec_sweep(old(self).sessions(), now as int);
                &&& r matches Ok(()) ==> swept.dom().contains(session_id@) && final(self).sessions() == swept.insert(
                    session_id@,
                    swept[session_id@].with_last_access(now as int),
                )
                &&& (r matches Err(e) && e@ is NoSession) ==> !swept.dom().contains(session_id@)
                    && final(self).sessions() == swept
                &&& final(self).may_fail() == old(self).may_fail()
                &&& !old(self).may_fail() ==> (r is Ok || (r matches Err(e) && e@ is NoSession))
            }),
    ;
}

/// A credential verifier: one operation, from a user name and a secret to a
/// resolved identity or a verdict. `spec_login` is the verifier's decision
/// function; `login` must return exactly that decision.
pub trait AuthService {
    /// The verifier's decision on the given user name and secret.
    spec fn spec_login(&self, user: Seq<char>, pass: Seq<char>) -> Result<UserView, ErrorView>;

    /// Checks the credentials and resolves the identity.
    fn login(&self, user: &str, pass: &SecretString) -> (r: Result<
        model::auth::User,
        model::auth::Error,
    >)
        ensures
            match r {
                Ok(u) => self.spec_login(user@, pass@) matches Ok(uv) && u@ == uv,
                Err(e) => self.spec_login(user@, pass@) matches Err(ev) && e@ == ev,
            },
    ;
}

/// A symmetric codec for short UTF-8 payloads. Decryption inverts
/// encryption: that is the codec round-trip law, stated on `encrypt`.
pub trait Encryptor {
    /// The ciphertext for a payload; deterministic for a given codec.
    spec fn spec_encrypt(&self, data: Seq<char>) -> Seq<char>;

    /// The payload a ciphertext decrypts to, if it is a valid ciphertext.
    spec fn spec_decrypt(&self, data: Seq<char>) -> Option<Seq<char>>;

    /// Encrypts; infallible, and the result always decrypts back to `data`.
    fn encrypt(&self, data: &str) -> (r: String)
        ensures
            r@ == self.spec_encrypt(data@),
            self.spec_decrypt(r@) == Some(data@),
    ;

    /// Decrypts, failing exactly on inputs that are no valid ciphertext.
    fn decrypt(&self, data: &str) -> (r: Result<String, String>)
        ensures
            r matches Ok(p) ==> self.spec_decrypt(data@) == Some(p@),
            r matches Err(_) ==> self.spec_decrypt(data@) is None,
    ;
}

} // verus!
