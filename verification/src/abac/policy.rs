//! Attribute-based policies.
use vstd::prelude::*;

use crate::abac::attribute::AttributeMatcher;
use crate::abac::condition::Condition;
use crate::types::common::Effect;

verus! {

/// A policy that applies to the requests its target matches and whose condition holds.
#[derive(Debug)]
pub struct AbacPolicy {
    pub id: String,
    pub effect: Effect,
    pub target: Target,
    pub condition: Option<Condition>,
}

/// The requests a policy applies to: each given matcher must match.
#[derive(Debug, Clone)]
pub struct Target {
    pub subject: Option<AttributeMatcher>,
    pub resource: Option<AttributeMatcher>,
    pub action: Option<AttributeMatcher>,
    pub environment: Option<AttributeMatcher>,
}

} // verus!
