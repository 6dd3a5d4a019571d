use vstd::prelude::*;

verus! {

/// Process-wide session policy, immutable after initialization.
///
/// Both fields are durations in milliseconds: `inactivity` is the longest
/// gap allowed between two successful validations, `session_timeout` is the
/// absolute lifetime granted at login.
#[derive(Clone, Copy, Debug)]
pub struct SessionConfig {
    pub inactivity: i64,
    pub session_timeout: i64,
}

} // verus!
