//! The forward-auth entry point: resolve a token from the bearer header or
//! from the forwarded URI's query string, look the session up, check the
//! pinned IP, the absolute lifetime and the inactivity window, in that
//! order, refresh `last_access`, and hand the identity back for the
//! `X-User-Info` response header.

use vstd::prelude::*;

use crate::handler::data::User;
use crate::handler::error::{ApiError, ApiErrorView};
use crate::model::config::SessionConfig;
use crate::model::data::{spec_sweep, SessionData};
use crate::utils::text::{spec_find, spec_split, spec_split_once, find_char, split_on,
    split_once_at, str_eq};
use crate::utils::urlenc::{url_decode, url_decoded};
use crate::SessionStore;
use vstd::string::StrSliceExecFns;

verus! {

/// The `token` parameter of a query string: the first `key=value` pair with
/// key `token` decides, and its value is percent-decoded. A value without
/// a `%` has nothing to decode and passes through unchanged.
pub open spec fn spec_token_in_params(ps: Seq<Seq<char>>) -> Option<Seq<char>>
    decreases ps.len(),
{
    if ps.len() == 0 {
        None
    } else {
        match spec_split_once(ps[0], '=') {
            Some(kv) => if kv.0 == "token"@ {
                if kv.1.contains('%') {
                    url_decoded(kv.1)
                } else {
                    Some(kv.1)
                }
            } else {
                spec_token_in_params(ps.drop_first())
            },
            None => spec_token_in_params(ps.drop_first()),
        }
    }
}

/// The token a forwarded URI carries: everything after the first `?`, split
/// on `&`, searched for a `token` parameter.
pub open spec fn spec_parse_token(url: Seq<char>) -> Option<Seq<char>> {
    match spec_find(url, '?') {
        Some(p) => spec_token_in_params(spec_split(url.subrange(p + 1, url.len() as int), '&')),
        None => None,
    }
}

/// Extracts the `token` query parameter, exactly as [`spec_parse_token`]
/// says.
pub fn parse_token_from_url(url: &str) -> (r: Option<String>)
    ensures
        r matches Some(t) ==> spec_parse_token(url@) == Some(t@),
        r is None ==> spec_parse_token(url@) is None,
{
    let n = url.unicode_len();
    proof {
        crate::utils::text::lemma_find_first(url@, '?');
    }
    let pos = match find_char(url, '?') {
        Some(p) => p,
        None => {
            return None;
        },
    };
    let query = url.substring_char(pos + 1, n);
    let pieces = split_on(query, '&');
    let ghost ps = pieces.deep_view();
    let mut k: usize = 0;
    proof {
        assert(ps.subrange(0, ps.len() as int) =~= ps);
    }
    while k < pieces.len()
        invariant
            k <= pieces.len(),
            ps == pieces.deep_view(),
            ps.len() == pieces.len(),
            spec_find(url@, '?') == Some(pos as int),
            ps == spec_split(url@.subrange(pos as int + 1, url@.len() as int), '&'),
            spec_token_in_params(ps) == spec_token_in_params(
                ps.subrange(k as int, ps.len() as int),
            ),
        decreases pieces.len() - k,
    {
        let ghost tail = ps.subrange(k as int, ps.len() as int);
        proof {
            assert(tail.len() > 0);
            assert(tail[0] == ps[k as int]);
            assert(tail.drop_first() =~= ps.subrange(k as int + 1, ps.len() as int));
            assert(pieces[k as int]@ == ps[k as int]);
        }
        match split_once_at(pieces[k].as_str(), '=') {
            Some(kv) => {
                if str_eq(kv.0.as_str(), "token") {
                    return url_decode(kv.1.as_str());
                }
            },
            None => {},
        }
        k = k + 1;
    }
    proof {
        assert(ps.subrange(k as int, ps.len() as int).len() == 0);
    }
    None
}

/// Which session id a request names: the bearer token when one is present;
/// otherwise the forwarded URI's `token` parameter, or the empty id when
/// the URI carries none; no URI either means no session at all.
pub open spec fn spec_resolved_token(
    bearer: Option<Seq<char>>,
    uri: Option<Seq<char>>,
) -> Option<Seq<char>> {
    match bearer {
        Some(b) => Some(b),
        None => match uri {
            Some(u) => match spec_parse_token(u) {
                Some(t) => Some(t),
                None => Some(Seq::<char>::empty()),
            },
            None => None,
        },
    }
}

/// Picks the session id a request names: the bearer token when present,
/// otherwise the forwarded URI's `token` parameter (the empty id when the
/// URI carries none); a request with neither has no session.
pub fn resolve_token(bearer: Option<&str>, forwarded_uri: Option<&str>) -> (r: Result<
    String,
    ApiError,
>)
    ensures
        ({
            let bv = match bearer {
                Some(b) => Some(b@),
                None => None,
            };
            let uv = match forwarded_uri {
                Some(u) => Some(u@),
                None => None,
            };
            match spec_resolved_token(bv, uv) {
                Some(t) => r matches Ok(tok) && tok@ == t,
                None => r == Err::<String, ApiError>(ApiError::NoSession()),
            }
        }),
{
    match bearer {
        Some(b) => Ok(b.to_owned()),
        None => match forwarded_uri {
            Some(u) => match parse_token_from_url(u) {
                Some(t) => Ok(t),
                None => Ok(String::new()),
            },
            None => Err(ApiError::NoSession()),
        },
    }
}

/// Runs the three per-request invariant checks in their fixed order: the
/// pinned IP first, then the absolute lifetime, then the inactivity window.
pub fn run_checks(data: &SessionData, ip: &str, now: i64, inactivity: i64) -> (r: Result<
    (),
    ApiError,
>)
    ensures
        r matches Ok(()) <==> data@.ip == ip@ && !data@.spec_expired(now as int)
            && !data@.spec_inactive(now as int, inactivity as int),
        (r matches Err(e) && e@ is NoSession) <==> data@.ip != ip@,
        (r matches Err(e) && e@ is ExpiredSession) <==> data@.ip == ip@ && (data@.spec_expired(
            now as int,
        ) || data@.spec_inactive(now as int, inactivity as int)),
        r matches Err(e) ==> (e@ is NoSession || e@ is ExpiredSession),
{
    match data.check_ip(ip) {
        Ok(()) => {},
        Err(e) => {
            return Err(e);
        },
    }
    match data.check_expired(now) {
        Ok(()) => {},
        Err(e) => {
            return Err(e);
        },
    }
    match data.check_inactivity(now, inactivity) {
        Ok(()) => {},
        Err(e) => {
            return Err(e);
        },
    }
    Ok(())
}

/// The forward-auth decision. On success the session's `last_access` is
/// refreshed and the resolved identity returned; every failure is one of
/// `NoSession` (no token, unknown id, or an IP that is not the pinned one),
/// `ExpiredSession` (lifetime or inactivity window passed), or a backend
/// fault. A store that cannot fault is owed the exact outcome.
pub fn handler<S: SessionStore>(
    store: &mut S,
    config: &SessionConfig,
    ip: &str,
    bearer: Option<&str>,
    forwarded_uri: Option<&str>,
    now: i64,
) -> (r: Result<User, ApiError>)
    ensures
        ({
            let bv = match bearer {
                Some(b) => Some(b@),
                None => None,
            };
            let uv = match forwarded_uri {
                Some(u) => Some(u@),
                None => None,
            };
            let resolved = spec_resolved_token(bv, uv);
            let swept = spec_sweep(old(store).sessions(), now as int);
            &&& resolved is None ==> r == Err::<User, ApiError>(ApiError::NoSession())
                && final(store).sessions() == old(store).sessions()
            &&& r matches Ok(u) ==> (resolved matches Some(tok) && swept.dom().contains(tok)
                && swept[tok].ip == ip@ && !swept[tok].spec_expired(now as int)
                && !swept[tok].spec_inactive(now as int, config.inactivity as int) && u@
                == swept[tok].user && final(store).sessions() == swept.insert(
                tok,
                swept[tok].with_last_access(now as int),
            ))
            &&& (r matches Err(e) && e@ is NoSession) ==> (resolved is None || (
            resolved matches Some(tok) && (!swept.dom().contains(tok) || swept[tok].ip != ip@)
                && final(store).sessions() == swept))
            &&& (r matches Err(e) && e@ is ExpiredSession) ==> (resolved matches Some(tok)
                && swept.dom().contains(tok) && swept[tok].ip == ip@ && (swept[
                tok].spec_expired(now as int) || swept[tok].spec_inactive(
                now as int,
                config.inactivity as int,
            )) && final(store).sessions() == swept)
            &&& r matches Err(e) ==> (e@ is NoSession || e@ is ExpiredSession || e@ matches
                ApiErrorView::Other(_))
            &&& final(store).may_fail() == old(store).may_fail()
            &&& !old(store).may_fail() ==> (match resolved {
                Some(tok) => {
                    if !swept.dom().contains(tok) || swept[tok].ip != ip@ {
                        r == Err::<User, ApiError>(ApiError::NoSession())
                    } else if swept[tok].spec_expired(now as int) || swept[tok].spec_inactive(
                        now as int,
                        config.inactivity as int,
                    ) {
                        r == Err::<User, ApiError>(ApiError::ExpiredSession())
                    } else {
                        r is Ok
                    }
                },
                None => true,
            })
        }),
{
    let token: String = match resolve_token(bearer, forwarded_uri) {
        Ok(t) => t,
        Err(e) => {
            return Err(e);
        },
    };
    let data = match store.get(token.as_str(), now) {
        Ok(d) => d,
        Err(e) => {
            return Err(ApiError::from(e));
        },
    };
    match run_checks(&data, ip, now, config.inactivity) {
        Ok(()) => {},
        Err(e) => {
            return Err(e);
        },
    }
    proof {
        let swept = spec_sweep(old(store).sessions(), now as int);
        assert(spec_sweep(swept, now as int) =~= swept);
    }
    match store.mark_last_used(token.as_str(), now) {
        Ok(()) => {},
        Err(e) => {
            return Err(ApiError::from(e));
        },
    }
    Ok(User::from(data.user))
}

} // verus!
