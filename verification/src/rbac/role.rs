//! Roles and their dynamic assignment to users.
use vstd::prelude::*;

use crate::dict::StrMap;
use crate::rbac::permission::Permission;
use crate::types::time::TimeWindow;

verus! {

/// A named set of permissions.
#[derive(Clone)]
pub struct Role {
    pub name: String,
    pub permissions: Vec<Permission>,
    pub constraints: RoleConstraints,
    /// 0 is the highest privilege.
    pub hierarchy_level: u32,
}

/// Limits that come with a role.
#[derive(Clone)]
pub struct RoleConstraints {
    /// Assignments expire after this duration (nanoseconds).
    pub max_duration: Option<i128>,
    pub valid_time_windows: Vec<TimeWindow>,
    pub required_attributes: StrMap<String>,
    pub location_restrictions: Vec<String>,
    /// At most this many concurrent sessions.
    pub concurrent_limit: Option<u32>,
}

/// A role given to a user, with its validity.
#[derive(Clone)]
pub struct DynamicRoleAssignment {
    pub role_name: String,
    /// Instant (nanoseconds since the epoch).
    pub assigned_at: i128,
    /// Instant after which the assignment is void.
    pub expires_at: Option<i128>,
    pub assigned_by: String,
    pub conditions: AssignmentConditions,
    /// How many delegations lie between the user and an original assignment.
    pub delegation_depth: u32,
}

/// When an assignment is in force.
#[derive(Clone)]
pub struct AssignmentConditions {
    /// The assignment holds only at this location.
    pub location: Option<String>,
    /// The assignment holds only inside these windows (always, when empty).
    pub time_windows: Vec<TimeWindow>,
    pub required_attributes: StrMap<String>,
    pub auto_revoke_conditions: Vec<RevocationCondition>,
}

/// Events that end an assignment.
#[derive(Debug, Clone)]
pub enum RevocationCondition {
    /// Duration in nanoseconds.
    InactivityTimeout(i128),
    AttributeChange(String, String),
    LocationChange,
    /// Instant (nanoseconds since the epoch).
    TimeExpiry(i128),
    SecurityEvent(String),
}

} // verus!
