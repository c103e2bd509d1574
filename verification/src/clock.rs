//! The wall clock, as text.

use vstd::prelude::*;

verus! {

/// Calls `chrono::Utc::now` and renders the instant with
/// `DateTime::to_rfc3339`. Trusted, and nothing is claimed of the text: it
/// depends on when the call is made.
#[verifier::external_body]
pub(crate) fn now_rfc3339() -> (timestamp: String) {
    chrono::Utc::now().to_rfc3339()
}

} // verus!
