//! The persisted session record and its pure invariant checks.

use vstd::prelude::*;

use crate::handler::error::ApiError;
use crate::model::auth::{User, UserView};

verus! {

/// Mathematical image of a [`SessionData`]: timestamps as unbounded integers.
pub struct SessionDataView {
    pub user: UserView,
    pub ip: Seq<char>,
    pub valid_till: int,
    pub last_access: int,
}

/// One session record: the resolved identity, the client IP bound at mint
/// time (empty permitted), and two instants in milliseconds since the epoch.
#[derive(Debug, PartialEq)]
pub struct SessionData {
    pub user: User,
    pub ip: String,
    pub valid_till: i64,
    pub last_access: i64,
}

impl View for SessionData {
    type V = SessionDataView;

    open spec fn view(&self) -> SessionDataView {
        SessionDataView {
            user: self.user@,
            ip: self.ip@,
            valid_till: self.valid_till as int,
            last_access: self.last_access as int,
        }
    }
}

impl Clone for SessionData {
    fn clone(&self) -> (r: SessionData)
        ensures
            r@ == self@,
    {
        SessionData {
            user: self.user.clone(),
            ip: self.ip.clone(),
            valid_till: self.valid_till,
            last_access: self.last_access,
        }
    }
}

/// Lazy expiry, as a session store applies it: every record whose
/// `valid_till` has been reached is dropped from the map.
pub open spec fn spec_sweep(
    m: Map<Seq<char>, SessionDataView>,
    now: int,
) -> Map<Seq<char>, SessionDataView> {
    Map::<Seq<char>, SessionDataView>::new(
        |k: Seq<char>| m.dom().contains(k) && m[k].valid_till > now,
        |k: Seq<char>| m[k],
    )
}

impl SessionDataView {
    /// A record is past its absolute lifetime strictly after `valid_till`:
    /// it stays valid at the exact boundary millisecond.
    pub open spec fn spec_expired(self, now: int) -> bool {
        self.valid_till < now
    }

    /// The same record after a successful validation at `now`.
    pub open spec fn with_last_access(self, now: int) -> SessionDataView {
        SessionDataView { last_access: now, ..self }
    }

    /// A record is inactive strictly after `last_access + dur`.
    pub open spec fn spec_inactive(self, now: int, dur: int) -> bool {
        self.last_access + dur < now
    }
}

impl SessionData {
    /// Rejects a record whose absolute lifetime has passed.
    pub fn check_expired(&self, now: i64) -> (r: Result<(), ApiError>)
        ensures
            r matches Ok(()) <==> !self@.spec_expired(now as int),
            r matches Err(e) ==> e == ApiError::ExpiredSession(),
    {
        if self.valid_till < now {
            return Err(ApiError::ExpiredSession());
        }
        Ok(())
    }

    /// Rejects a record that has not been validated within the last `dur`
    /// milliseconds. The comparison is mathematical: no overflow, however
    /// large `last_access + dur` gets.
    pub fn check_inactivity(&self, now: i64, dur: i64) -> (r: Result<(), ApiError>)
        ensures
            r matches Ok(()) <==> !self@.spec_inactive(now as int, dur as int),
            r matches Err(e) ==> e == ApiError::ExpiredSession(),
    {
        if (self.last_access as i128) + (dur as i128) < (now as i128) {
            return Err(ApiError::ExpiredSession());
        }
        Ok(())
    }

    /// Rejects a caller whose IP differs from the one bound at mint time.
    pub fn check_ip(&self, ip: &str) -> (r: Result<(), ApiError>)
        ensures
            r matches Ok(()) <==> self@.ip == ip@,
            r matches Err(e) ==> e == ApiError::NoSession(),
    {
        if !crate::utils::text::str_eq(self.ip.as_str(), ip) {
            return Err(ApiError::NoSession());
        }
        Ok(())
    }
}

} // verus!
