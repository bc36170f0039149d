use vstd::prelude::*;

use crate::text::{ends_with, has_prefix, has_suffix, starts_with};

verus! {

/// How long a log file is kept: a day, in nanoseconds.
pub const MAX_AGE_NANOS: u128 = 86_400_000_000_000;

/// Whether a file name is one of this tool's log files: `shrike-*.log`.
pub open spec fn is_log_name_text(name: Seq<char>) -> bool {
    has_prefix(name, "shrike-"@) && has_suffix(name, ".log"@)
}

/// See `is_log_name_text`.
pub fn is_log_name(name: &str) -> (r: bool)
    ensures
        r == is_log_name_text(name@),
{
    starts_with(name, "shrike-") && ends_with(name, ".log")
}

/// Whether a log file of age `age_nanos` (`None`: modified after now) is
/// older than a day and goes.
pub open spec fn expired_text(age_nanos: Option<u128>) -> bool {
    match age_nanos {
        Some(a) => a > MAX_AGE_NANOS,
        None => false,
    }
}

/// See `expired_text`.
pub fn is_expired(age_nanos: Option<u128>) -> (r: bool)
    ensures
        r == expired_text(age_nanos),
{
    match age_nanos {
        Some(a) => a > MAX_AGE_NANOS,
        None => false,
    }
}

} // verus!
