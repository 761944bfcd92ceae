//! Permissions that roles grant.
use vstd::prelude::*;

verus! {

/// The right to perform `action` on resources of type `resource`.
#[derive(Debug, Clone)]
pub struct Permission {
    pub resource: String,
    pub action: String,
    /// Further conditions, by name.
    pub conditions: Vec<String>,
}

} // verus!
