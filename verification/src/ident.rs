//! Fresh request identities.  Every launch gets its own id, and the
//! working-area path is derived from it, so distinct ids never share a
//! working area (see [`crate::workarea::lemma_work_area_unique`]).

use vstd::prelude::*;

verus! {

/// Relies on `uuid::Uuid::new_v4` and its hyphenated `Display` form: a
/// fresh random version-4 UUID rendered as its canonical 36-character
/// string.  The value is random, so nothing is promised beyond its shape.
#[verifier::external_body]
pub(crate) fn fresh_request_id() -> (r: String)
    ensures
        r@.len() == 36,
{
    uuid::Uuid::new_v4().to_string()
}

} // verus!
