//! The parties of an access request and their attributes.
use vstd::prelude::*;

use crate::abac::condition::Operator;
use crate::dict::StrMap;
use crate::types::common::AttributeValue;

verus! {

/// A named attribute value.
#[derive(Debug, Clone)]
pub struct Attribute {
    pub name: String,
    pub value: AttributeValue,
}

/// Who asks for access.
#[derive(Clone)]
pub struct Subject {
    pub id: String,
    /// Roles, as the role-based rules know them.
    pub roles: Vec<String>,
    pub attributes: StrMap<AttributeValue>,
}

/// What access is asked for.
#[derive(Clone)]
pub struct Resource {
    pub id: String,
    /// The kind of resource (for example `documents`).
    pub resource_type: String,
    pub owner: Option<String>,
    pub attributes: StrMap<AttributeValue>,
}

/// What is to be done with the resource.
#[derive(Clone)]
pub struct Action {
    pub name: String,
    pub attributes: StrMap<AttributeValue>,
}

/// The circumstances of the request.
#[derive(Clone)]
pub struct Environment {
    pub attributes: StrMap<AttributeValue>,
}

/// A test of one attribute against a value.
#[derive(Debug, Clone)]
pub struct AttributeMatcher {
    pub name: String,
    pub operator: Operator,
    pub value: AttributeValue,
}

} // verus!
