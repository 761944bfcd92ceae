//! Attribute-based access control: attributes, conditions and policies.
pub mod attribute;
pub mod condition;
pub mod policy;

pub use attribute::{Action, Attribute, AttributeMatcher, Environment, Resource, Subject};
pub use condition::{Condition, Operator, RbacRequirement};
pub use policy::{AbacPolicy, Target};
