//! The one place the library reads the system clock.

use vstd::prelude::*;

verus! {

/// Relies on `chrono::Utc::now`: the current moment as whole seconds
/// since the Unix epoch.  Nothing is assumed of the value; every caller
/// is verified for an arbitrary timestamp.
#[verifier::external_body]
pub(crate) fn current_timestamp() -> i64 {
    chrono::Utc::now().timestamp()
}

} // verus!
