//! Picks one address out of a comma-separated proxy-chain header.
//!
//! The extractor is configured with a signed index: `0` is the first entry,
//! `-1` the last, `-2` the one before the last. A missing header or an index
//! out of range yields the empty string. The selected entry is not trimmed.

use vstd::prelude::*;

use crate::utils::text::{spec_split, split_on};

verus! {

/// What [`extract_ip`] returns: the entry of the comma-split header selected
/// by the signed index, or the empty sequence.
pub open spec fn spec_extract_ip(input: Option<Seq<char>>, index: int) -> Seq<char> {
    match input {
        Option::None => Seq::<char>::empty(),
        Option::Some(s) => {
            let pieces = spec_split(s, ',');
            if 0 <= index < pieces.len() {
                pieces[index]
            } else if index < 0 && -index <= pieces.len() {
                pieces[pieces.len() + index]
            } else {
                Seq::<char>::empty()
            }
        },
    }
}

/// Selects the entry of the comma-separated list at the signed index.
pub fn extract_ip(input: Option<&str>, index: i16) -> (r: String)
    ensures
        input matches Some(s) ==> r@ == spec_extract_ip(Some(s@), index as int),
        input is None ==> r@ == Seq::<char>::empty(),
{
    match input {
        None => String::new(),
        Some(ip_list) => {
            let pieces = split_on(ip_list, ',');
            let len = pieces.len();
            if index >= 0 && (index as usize) < len {
                let r = pieces[index as usize].clone();
                proof {
                    assert(pieces.deep_view()[index as int] == pieces[index as int]@);
                }
                r
            } else if index < 0 && ((-(index as i32)) as usize) <= len {
                let back: usize = (-(index as i32)) as usize;
                let r = pieces[len - back].clone();
                proof {
                    assert(pieces.deep_view()[len - back] == pieces[len - back]@);
                }
                r
            } else {
                String::new()
            }
        },
    }
}

/// The proxy-chain IP extractor: remembers which entry of the
/// `x-forwarded-for` header counts as the client address.
pub struct Header {
    pub index: i16,
}

impl Header {
    /// A new extractor for the given signed index.
    pub fn new(index: i16) -> (r: Header)
        ensures
            r.index == index,
    {
        Header { index }
    }

    /// Applies [`extract_ip`] to the raw `x-forwarded-for` value, if any.
    pub fn get(&self, forwarded_for: Option<&str>) -> (r: String)
        ensures
            forwarded_for matches Some(s) ==> r@ == spec_extract_ip(
                Some(s@),
                self.index as int,
            ),
            forwarded_for is None ==> r@ == Seq::<char>::empty(),
    {
        extract_ip(forwarded_for, self.index)
    }
}

} // verus!
