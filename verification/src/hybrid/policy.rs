//! The kinds of policies the hybrid engine evaluates.
use vstd::prelude::*;

use crate::abac::condition::Condition;
use crate::abac::policy::AbacPolicy;
use crate::rbac::permission::Permission;
use crate::rbac::policy::RbacPolicy;

verus! {

/// A policy of any kind.
#[derive(Debug)]
pub enum PolicyType {
    Rbac(RbacPolicy),
    Abac(AbacPolicy),
    Hybrid(HybridPolicy),
}

/// A role requirement combined with attribute conditions.
#[derive(Debug)]
pub struct HybridPolicy {
    pub id: String,
    pub rbac_requirement: RbacRequirement,
    pub abac_conditions: Vec<Condition>,
    pub combination_logic: CombinationLogic,
}

/// What a hybrid policy asks of the subject's roles.
#[derive(Debug, Clone)]
pub enum RbacRequirement {
    AnyRole(Vec<String>),
    AllRoles(Vec<String>),
    Permission(Permission),
}

/// How a hybrid policy combines its two parts.
#[derive(Debug, Clone, Copy, PartialEq, Eq, Structural)]
pub enum CombinationLogic {
    /// Both parts must pass.
    RbacAndAbac,
    /// Either part must pass.
    RbacOrAbac,
    /// The role part first, then the attribute part for fine-grained control.
    RbacThenAbac,
}

} // verus!
