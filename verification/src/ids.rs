//! Identities for interactive elements.  Selection groups and focus handling
//! correlate widgets purely by comparing these tokens; mutual exclusion never
//! relies on a shared owning collection.

use vstd::prelude::*;

verus! {

/// An opaque identity token.  Two tokens correlate exactly when their raw
/// values are equal.
#[derive(Clone, Copy, Debug, PartialEq, Eq, Hash, Structural)]
pub struct ElementID {
    pub raw: u128,
}

/// Relies on `uuid::Uuid::new_v4` for a freshly drawn random identity; the
/// result depends on the process's randomness source, so nothing is promised
/// of its value.
#[verifier::external_body]
fn fresh_raw() -> u128 {
    uuid::Uuid::new_v4().as_u128()
}

impl ElementID {
    /// Draws a fresh identity.  Distinct calls are overwhelmingly likely to
    /// differ, but nothing here depends on that: correlation is by equality
    /// only.
    pub fn new() -> ElementID {
        ElementID { raw: fresh_raw() }
    }

    /// An identity with a caller-chosen raw value, for deterministic wiring.
    pub fn from_raw(raw: u128) -> (r: ElementID)
        ensures
            r.raw == raw,
    {
        ElementID { raw }
    }
}

} // verus!
