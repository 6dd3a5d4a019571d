//! Logging out: the bearer token's record is removed eagerly; a missing or
//! unknown token reports `NoSession`.

use vstd::prelude::*;

use crate::handler::error::{ApiError, ApiErrorView};
use crate::SessionStore;

verus! {

/// The logout decision: removal succeeds exactly when the id is held —
/// an equivalence, for a store that cannot fault.
pub fn handler<S: SessionStore>(store: &mut S, bearer: Option<&str>) -> (r: Result<(), ApiError>)
    ensures
        bearer is None ==> r == Err::<(), ApiError>(ApiError::NoSession()) && final(store).sessions() == old(store).sessions(),
        r matches Ok(()) ==> (bearer matches Some(b) && old(store).sessions().dom().contains(b@)
            && final(store).sessions() == old(store).sessions().remove(b@)),
        (r matches Err(e) && e@ is NoSession) ==> (bearer is None || (bearer matches Some(b)
            && !old(store).sessions().dom().contains(b@) && final(store).sessions() == old(store).sessions())),
        r matches Err(e) ==> (e@ is NoSession || e@ matches ApiErrorView::Other(_)),
        final(store).may_fail() == old(store).may_fail(),
        !old(store).may_fail() ==> (match bearer {
            Some(b) => {
                if old(store).sessions().dom().contains(b@) {
                    r matches Ok(())
                } else {
                    r == Err::<(), ApiError>(ApiError::NoSession())
                }
            },
            None => true,
        }),
{
    let token = match bearer {
        Some(b) => b,
        None => {
            return Err(ApiError::NoSession());
        },
    };
    match store.remove(token) {
        Ok(()) => Ok(()),
        Err(e) => Err(ApiError::from(e)),
    }
}

} // verus!
