//! Fresh identifiers for records.

use vstd::prelude::*;

verus! {

/// `uuid::Uuid::new_v4` followed by `to_string`: the text of a random
/// identifier. Nothing is claimed of it: two calls may give the same text,
/// and the callers test for that.
#[verifier::external_body]
pub(crate) fn fresh_id() -> (id: String) {
    uuid::Uuid::new_v4().to_string()
}

} // verus!
