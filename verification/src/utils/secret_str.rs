//! A wrapper for sensitive strings.
//!
//! The payload is reachable only through an explicit [`SecretString::reveal_secret`]
//! call; the type deliberately has no `Display` or `Debug` rendering, so a
//! password can never leak into a log line by accident. Diagnostic output, if
//! any is wanted, goes through [`SecretString::placeholder`].

use vstd::prelude::*;

verus! {

/// One sensitive string, equal to another exactly when the payloads are equal.
pub struct SecretString(String);

impl View for SecretString {
    type V = Seq<char>;

    closed spec fn view(&self) -> Seq<char> {
        self.0@
    }
}

impl SecretString {
    /// Hands out the wrapped payload; the only way to read it.
    pub fn reveal_secret(&self) -> (r: &str)
        ensures
            r@ == self@,
    {
        self.0.as_str()
    }

    /// A fixed placeholder for diagnostics; never the payload.
    pub fn placeholder(&self) -> (r: &'static str)
        ensures
            r@ == "***"@,
    {
        "***"
    }
}

impl PartialEq for SecretString {
    fn eq(&self, other: &SecretString) -> (r: bool) {
        self.0 == other.0
    }
}

impl vstd::std_specs::cmp::PartialEqSpecImpl for SecretString {
    open spec fn obeys_eq_spec() -> bool {
        true
    }

    open spec fn eq_spec(&self, other: &SecretString) -> bool {
        self@ == other@
    }
}

impl Clone for SecretString {
    fn clone(&self) -> (r: SecretString)
        ensures
            r@ == self@,
    {
        SecretString(self.0.clone())
    }
}

impl From<&str> for SecretString {
    fn from(secret: &str) -> (r: SecretString)
        ensures
            r@ == secret@,
    {
        SecretString(secret.to_owned())
    }
}

impl vstd::std_specs::convert::FromSpecImpl<&str> for SecretString {
    open spec fn obeys_from_spec() -> bool {
        false
    }

    open spec fn from_spec(secret: &str) -> SecretString {
        arbitrary()
    }
}

impl From<String> for SecretString {
    fn from(secret: String) -> (r: SecretString)
        ensures
            r@ == secret@,
    {
        SecretString(secret)
    }
}

impl vstd::std_specs::convert::FromSpecImpl<String> for SecretString {
    open spec fn obeys_from_spec() -> bool {
        false
    }

    open spec fn from_spec(secret: String) -> SecretString {
        arbitrary()
    }
}

} // verus!
