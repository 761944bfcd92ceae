//! Sessions of users in the role-based engine.
use vstd::prelude::*;

verus! {

/// A session and the roles that were active when it started.
#[derive(Debug, Clone)]
pub struct UserSession {
    pub session_id: String,
    /// Instant (nanoseconds since the epoch).
    pub started_at: i128,
    /// Instant (nanoseconds since the epoch).
    pub last_activity: i128,
    pub location: Option<String>,
    pub device_info: String,
    pub active_roles: Vec<String>,
}

} // verus!
