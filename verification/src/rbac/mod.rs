//! Role-based access control: roles, dynamic assignments, delegation and sessions.
pub mod delegation;
pub mod engine;
pub mod permission;
pub mod policy;
pub mod role;
pub mod session;
pub mod timespec;

pub use delegation::{DelegationConditions, RoleDelegation};
pub use engine::RbacEngine;
pub use permission::Permission;
pub use policy::RbacPolicy;
pub use role::{AssignmentConditions, DynamicRoleAssignment, RevocationCondition, Role, RoleConstraints};
pub use session::UserSession;
