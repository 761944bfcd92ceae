//! Attribute values and access decisions.
use vstd::prelude::*;

use crate::text::{str_eq, strs};

verus! {

/// The value of an attribute.
#[derive(Debug, Clone)]
pub enum AttributeValue {
    String(String),
    Number(i64),
    Boolean(bool),
    Array(Vec<String>),
}

/// Two attribute values are equal: same variant, same contents.
pub open spec fn same_value(a: AttributeValue, b: AttributeValue) -> bool {
    match (a, b) {
        (AttributeValue::String(x), AttributeValue::String(y)) => x@ == y@,
        (AttributeValue::Number(x), AttributeValue::Number(y)) => x == y,
        (AttributeValue::Boolean(x), AttributeValue::Boolean(y)) => x == y,
        (AttributeValue::Array(x), AttributeValue::Array(y)) => strs(x@) == strs(y@),
        _ => false,
    }
}

/// Two vectors of strings hold the same strings in the same order.
pub fn strings_eq(a: &Vec<String>, b: &Vec<String>) -> (r: bool)
    ensures
        r == (strs(a@) == strs(b@)),
{
    if a.len() != b.len() {
        return false;
    }
    let mut i: usize = 0;
    while i < a.len()
        invariant
            a@.len() == b@.len(),
            i <= a@.len(),
            forall|j: int| 0 <= j < i ==> a@[j]@ == b@[j]@,
        decreases a.len() - i,
    {
        if !str_eq(a[i].as_str(), b[i].as_str()) {
            assert(strs(a@)[i as int] != strs(b@)[i as int]);
            return false;
        }
        i = i + 1;
    }
    assert(strs(a@) =~= strs(b@));
    true
}

impl AttributeValue {
    /// Equality of attribute values.
    pub fn equals(&self, other: &AttributeValue) -> (r: bool)
        ensures
            r == same_value(*self, *other),
    {
        match (self, other) {
            (AttributeValue::String(x), AttributeValue::String(y)) => str_eq(x.as_str(), y.as_str()),
            (AttributeValue::Number(x), AttributeValue::Number(y)) => *x == *y,
            (AttributeValue::Boolean(x), AttributeValue::Boolean(y)) => *x == *y,
            (AttributeValue::Array(x), AttributeValue::Array(y)) => strings_eq(x, y),
            _ => false,
        }
    }
}

/// The outcome of evaluating a policy.
#[derive(Debug, Clone, Copy, PartialEq, Eq, Structural)]
pub enum Decision {
    Permit,
    Deny,
    NotApplicable,
}

/// What a matching policy grants.
#[derive(Debug, Clone, Copy, PartialEq, Eq, Structural)]
pub enum Effect {
    Permit,
    Deny,
}

} // verus!
