//! Conditions of attribute-based policies.
use vstd::prelude::*;

use crate::abac::attribute::AttributeMatcher;
use crate::rbac::permission::Permission;

verus! {

/// How an attribute matcher compares.
#[derive(Debug, Clone, Copy, PartialEq, Eq, Structural)]
pub enum Operator {
    Equals,
    NotEquals,
    Contains,
    GreaterThan,
    LessThan,
    In,
    /// Time-based access with rules written as time specifications.
    TimeWindow,
    /// The subject holds the role named by the value.
    HasRole,
    /// The subject owns the resource.
    IsOwner,
    /// The current time falls within the windows named by the value.
    InTimeWindow,
    /// The subject has the attribute named by the value.
    HasAttribute,
    /// The current location matches the value.
    LocationMatch,
    /// The session named in the environment is valid and active.
    SessionValid,
    /// The role named by the value was delegated to the subject and is still valid.
    DelegationValid,
}

/// A condition over the parties of a request.
#[derive(Debug)]
pub enum Condition {
    And(Vec<Condition>),
    Or(Vec<Condition>),
    Attribute(AttributeMatcher),
    RbacCheck(RbacRequirement),
}

/// A role-based requirement used inside a condition.
#[derive(Debug, Clone)]
pub enum RbacRequirement {
    AnyRole(Vec<String>),
    AllRoles(Vec<String>),
    Permission(Permission),
}

} // verus!
