//! Percent-encoding and -decoding, named and trusted.

use vstd::prelude::*;

verus! {

/// The percent-encoding of `s`: a function of the input alone.
pub uninterp spec fn url_encoded(s: Seq<char>) -> Seq<char>;

/// The percent-decoding of `s`, or nothing when the decoded bytes are not
/// valid UTF-8; a function of the input alone.
pub uninterp spec fn url_decoded(s: Seq<char>) -> Option<Seq<char>>;

/// Relies on urlencoding::encode: percent-encodes every byte except ASCII
/// alphanumerics and `-`, `_`, `.`, `~`, deterministically.
#[verifier::external_body]
pub(crate) fn url_encode(s: &str) -> (r: String)
    ensures
        r@ == url_encoded(s@),
{
    urlencoding::encode(s).into_owned()
}

/// Relies on urlencoding::decode: replaces every `%xx` escape by its byte,
/// leaves other bytes alone (`+` included), and fails exactly when the
/// resulting bytes are not valid UTF-8; deterministic. An input without a
/// `%` passes through unchanged.
#[verifier::external_body]
pub(crate) fn url_decode(s: &str) -> (r: Option<String>)
    ensures
        r matches Some(t) ==> url_decoded(s@) == Some(t@),
        r is None ==> url_decoded(s@) is None,
        (match r {
            Some(t) => !s@.contains('%') ==> t@ == s@,
            None => s@.contains('%'),
        }),
{
    match urlencoding::decode(s) {
        Ok(t) => Some(t.into_owned()),
        Err(_) => None,
    }
}

} // verus!
