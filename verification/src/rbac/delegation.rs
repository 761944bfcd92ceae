//! Delegation of roles from one user to another.
use vstd::prelude::*;

use crate::rbac::permission::Permission;
use crate::types::time::TimeWindow;

verus! {

/// A record of a role passed on by its holder.
#[derive(Clone)]
pub struct RoleDelegation {
    pub id: String,
    pub delegator: String,
    pub delegatee: String,
    pub role: String,
    /// Instant (nanoseconds since the epoch).
    pub created_at: i128,
    /// Instant (nanoseconds since the epoch).
    pub expires_at: i128,
    pub conditions: DelegationConditions,
    pub max_depth: u32,
}

/// The terms of a delegation.
#[derive(Clone)]
pub struct DelegationConditions {
    pub can_further_delegate: bool,
    pub restricted_permissions: Vec<Permission>,
    pub time_windows: Vec<TimeWindow>,
    pub approval_required: bool,
    pub max_depth: u32,
}

} // verus!
