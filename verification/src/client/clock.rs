//! The time of day.

use chrono::Local;
use vstd::prelude::*;

verus! {

/// `Local::now` and `DateTime::timestamp` of chrono: the seconds since the epoch. The result is
/// the time of the machine, of which nothing is said. A clock that is set to a time before the
/// epoch, or a local time zone that cannot be used, makes the call panic.
#[verifier::external_body]
pub(crate) fn timestamp() -> i64 {
    Local::now().timestamp()
}

/// `Local::now` and `DateTime::to_rfc2822` of chrono: the time of day as text. The result is the
/// time of the machine, of which nothing is said. A clock that is set to a time before the epoch,
/// or to a year of more than four digits, or a local time zone that cannot be used, makes the call
/// panic.
#[verifier::external_body]
pub(crate) fn time_text() -> String {
    Local::now().to_rfc2822()
}

} // verus!
