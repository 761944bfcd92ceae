//! Policies that combine role-based and attribute-based rules, and the engine
//! that evaluates them.
pub mod engine;
pub mod policy;

pub use engine::HybridPolicyEngine;
pub use policy::{CombinationLogic, HybridPolicy, PolicyType, RbacRequirement};
