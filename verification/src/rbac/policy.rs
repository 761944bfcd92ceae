//! Role-based policies.
use vstd::prelude::*;

verus! {

/// Grants `action` on resources of type `resource` to holders of `required_role`.
#[derive(Debug, Clone)]
pub struct RbacPolicy {
    pub id: String,
    pub required_role: String,
    pub resource: String,
    pub action: String,
}

} // verus!
