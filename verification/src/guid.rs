//! Fresh opaque identifiers, drawn through the `uuid` crate.

use vstd::prelude::*;

verus! {

/// Relies on `uuid::Uuid::new_v4` and the `Simple` display form, documented
/// as thirty-two lowercase hexadecimal characters.  The value itself is
/// random; no two calls can be related.
#[verifier::external_body]
pub fn new_guid() -> (r: String)
    ensures
        r@.len() == 32,
{
    uuid::Uuid::new_v4().simple().to_string()
}

} // verus!
