//! Token validation: the bearer header only (no query-string fallback),
//! with the same invariant checks as the forward-auth entry point, but
//! without refreshing `last_access`.

use vstd::prelude::*;

use crate::handler::auth::run_checks;
use crate::handler::error::{ApiError, ApiErrorView};
use crate::model::config::SessionConfig;
use crate::model::data::spec_sweep;
use crate::SessionStore;

verus! {

/// The validation decision: `NoSession` without a bearer token, for an
/// unknown id or a foreign IP; `ExpiredSession` past either bound; the
/// record is left as the sweep leaves it. A store that cannot fault is
/// owed the exact outcome.
pub fn handler<S: SessionStore>(
    store: &mut S,
    config: &SessionConfig,
    ip: &str,
    bearer: Option<&str>,
    now: i64,
) -> (r: Result<(), ApiError>)
    ensures
        ({
            let swept = spec_sweep(old(store).sessions(), now as int);
            &&& bearer is None ==> r == Err::<(), ApiError>(ApiError::NoSession())
                && final(store).sessions() == old(store).sessions()
            &&& r matches Ok(()) ==> (bearer matches Some(b) && swept.dom().contains(b@)
                && swept[b@].ip == ip@ && !swept[b@].spec_expired(now as int)
                && !swept[b@].spec_inactive(now as int, config.inactivity as int)
                && final(store).sessions() == swept)
            &&& (r matches Err(e) && e@ is NoSession) ==> (bearer is None || (
            bearer matches Some(b) && (!swept.dom().contains(b@) || swept[b@].ip != ip@)
                && final(store).sessions() == swept))
            &&& (r matches Err(e) && e@ is ExpiredSession) ==> (bearer matches Some(b)
                && swept.dom().contains(b@) && swept[b@].ip == ip@ && (swept[b@].spec_expired(
                now as int,
            ) || swept[b@].spec_inactive(now as int, config.inactivity as int))
                && final(store).sessions() == swept)
            &&& r matches Err(e) ==> (e@ is NoSession || e@ is ExpiredSession || e@ matches
                ApiErrorView::Other(_))
            &&& final(store).may_fail() == old(store).may_fail()
            &&& !old(store).may_fail() ==> (match bearer {
                Some(b) => {
                    if !swept.dom().contains(b@) || swept[b@].ip != ip@ {
                        r == Err::<(), ApiError>(ApiError::NoSession())
                    } else if swept[b@].spec_expired(now as int) || swept[b@].spec_inactive(
                        now as int,
                        config.inactivity as int,
                    ) {
                        r == Err::<(), ApiError>(ApiError::ExpiredSession())
                    } else {
                        r matches Ok(())
                    }
                },
                None => true,
            })
        }),
{
    let token = match bearer {
        Some(b) => b,
        None => {
            return Err(ApiError::NoSession());
        },
    };
    let data = match store.get(token, now) {
        Ok(d) => d,
        Err(e) => {
            return Err(ApiError::from(e));
        },
    };
    match run_checks(&data, ip, now, config.inactivity) {
        Ok(()) => {},
        Err(e) => {
            return Err(e);
        },
    }
    Ok(())
}

} // verus!
