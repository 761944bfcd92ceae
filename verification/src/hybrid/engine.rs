//! The hybrid engine: evaluates role-based, attribute-based and hybrid policies
//! and combines their decisions, deny overriding permit.
//!
//! Rules that depend on the time are judged at one instant per evaluation; the
//! `..._at` forms take that instant as an argument.
use vstd::prelude::*;

use crate::abac::attribute::{Action, AttributeMatcher, Environment, Resource, Subject};
use crate::abac::condition::{Condition, Operator, RbacRequirement};
use crate::abac::policy::{AbacPolicy, Target};
use crate::clock::{now, valid_instant};
use crate::dict::StrMap;
use crate::hybrid::policy::{CombinationLogic, HybridPolicy, PolicyType};
use crate::hybrid::policy::RbacRequirement as HybridRequirement;
use crate::rbac::engine::{session_active_at, RbacEngine};
use crate::rbac::policy::RbacPolicy;
use crate::rbac::timespec::{evaluation_time, time_value_holds};
use crate::text::{occurs_in, str_contains_str, str_eq, strs};
use crate::types::common::{same_value, AttributeValue, Decision, Effect};

verus! {

/// `names` lists `name`.
pub open spec fn lists(names: Seq<Seq<char>>, name: Seq<char>) -> bool {
    names.contains(name)
}

/// The comparison operators relate `left` (the attribute's value) to `right` (the
/// matcher's value); the other operators never do.
pub open spec fn operator_holds(op: Operator, left: AttributeValue, right: AttributeValue) -> bool {
    match op {
        Operator::Equals => same_value(left, right),
        Operator::NotEquals => !same_value(left, right),
        Operator::Contains => match (left, right) {
            (AttributeValue::String(l), AttributeValue::String(r)) => occurs_in(r@, l@),
            (AttributeValue::Array(l), AttributeValue::String(r)) => lists(strs(l@), r@),
            _ => false,
        },
        Operator::GreaterThan => match (left, right) {
            (AttributeValue::Number(l), AttributeValue::Number(r)) => l > r,
            _ => false,
        },
        Operator::LessThan => match (left, right) {
            (AttributeValue::Number(l), AttributeValue::Number(r)) => l < r,
            _ => false,
        },
        Operator::In => match (left, right) {
            (AttributeValue::String(l), AttributeValue::Array(r)) => lists(strs(r@), l@),
            _ => false,
        },
        _ => false,
    }
}

/// The attribute `name` of `attrs` relates to `value` by `op`.
pub open spec fn attribute_holds(attrs: StrMap<AttributeValue>, name: Seq<char>, op: Operator, value: AttributeValue) -> bool {
    match attrs.lookup(name) {
        Some(v) => operator_holds(op, v, value),
        None => false,
    }
}

/// A comparison matcher holds on the subject's, the resource's, the action's or
/// the environment's attribute of its name.
pub open spec fn standard_match(m: AttributeMatcher, s: Subject, r: Resource, a: Action, e: Environment) -> bool {
    ||| attribute_holds(s.attributes, m.name@, m.operator, m.value)
    ||| attribute_holds(r.attributes, m.name@, m.operator, m.value)
    ||| attribute_holds(a.attributes, m.name@, m.operator, m.value)
    ||| attribute_holds(e.attributes, m.name@, m.operator, m.value)
}

/// The decision of the combined policies: deny when any policy denies, permit when
/// some policy permits and none denies, deny otherwise.
pub open spec fn combine(ds: Seq<Decision>) -> Decision {
    if ds.contains(Decision::Deny) {
        Decision::Deny
    } else if ds.contains(Decision::Permit) {
        Decision::Permit
    } else {
        Decision::Deny
    }
}

/// The hybrid engine.
pub struct HybridPolicyEngine {
    rbac_engine: RbacEngine,
    policies: Vec<PolicyType>,
}

impl HybridPolicyEngine {
    /// The role-based engine it consults.
    pub closed spec fn rbac(&self) -> RbacEngine {
        self.rbac_engine
    }

    /// Its policies, in the order they were added.
    pub closed spec fn policies(&self) -> Seq<PolicyType> {
        self.policies@
    }

    /// An attribute matcher holds for a request, judged at `now`.
    pub open spec fn matcher_holds(
        &self,
        m: AttributeMatcher,
        s: Subject,
        r: Resource,
        a: Action,
        e: Environment,
        now: int,
    ) -> bool {
        match m.operator {
            Operator::HasRole => match m.value {
                AttributeValue::String(role) => lists(strs(s.roles@), role@),
                _ => false,
            },
            Operator::IsOwner => match r.owner {
                Some(o) => o@ == s.id@,
                None => false,
            },
            Operator::InTimeWindow => time_value_holds(m.value, evaluation_time(e, now), e),
            Operator::TimeWindow => time_value_holds(m.value, evaluation_time(e, now), e),
            Operator::HasAttribute => match m.value {
                AttributeValue::String(name) => s.attributes.has(name@),
                _ => false,
            },
            Operator::LocationMatch => match e.attributes.lookup("location"@) {
                Some(AttributeValue::String(cur)) => match m.value {
                    AttributeValue::String(required) => cur@ == required@,
                    AttributeValue::Array(allowed) => lists(strs(allowed@), cur@),
                    _ => false,
                },
                _ => false,
            },
            Operator::SessionValid => match e.attributes.lookup("session_id"@) {
                Some(AttributeValue::String(sid)) => match self.rbac().active_sessions.lookup(s.id@) {
                    Some(sessions) => exists|j: int|
                        0 <= j < sessions@.len() && (#[trigger] sessions@[j]).session_id@ == sid@
                            && session_active_at(sessions@[j], now),
                    None => false,
                },
                _ => false,
            },
            Operator::DelegationValid => match m.value {
                AttributeValue::String(role) => self.rbac().delegated(s.id@, role@, now),
                _ => false,
            },
            _ => standard_match(m, s, r, a, e),
        }
    }

    /// A role requirement of a condition holds for the subject at `now`.
    pub open spec fn requirement_holds(&self, req: RbacRequirement, s: Subject, now: int) -> bool {
        match req {
            RbacRequirement::AnyRole(roles) => exists|i: int|
                0 <= i < roles@.len() && lists(strs(s.roles@), (#[trigger] roles@[i])@),
            RbacRequirement::AllRoles(roles) => forall|i: int|
                0 <= i < roles@.len() ==> lists(strs(s.roles@), (#[trigger] roles@[i])@),
            RbacRequirement::Permission(p) => self.rbac().permitted(s.id@, p.resource@, p.action@, now, None),
        }
    }

    /// The role requirement of a hybrid policy holds for the subject at `now`.
    pub open spec fn hybrid_requirement_holds(&self, req: HybridRequirement, s: Subject, now: int) -> bool {
        match req {
            HybridRequirement::AnyRole(roles) => exists|i: int|
                0 <= i < roles@.len() && lists(strs(s.roles@), (#[trigger] roles@[i])@),
            HybridRequirement::AllRoles(roles) => forall|i: int|
                0 <= i < roles@.len() ==> lists(strs(s.roles@), (#[trigger] roles@[i])@),
            HybridRequirement::Permission(p) => self.rbac().permitted(s.id@, p.resource@, p.action@, now, None),
        }
    }

    /// A condition holds for a request, judged at `now`.
    pub open spec fn condition_holds(
        &self,
        c: Condition,
        s: Subject,
        r: Resource,
        a: Action,
        e: Environment,
        now: int,
    ) -> bool
        decreases c,
    {
        match c {
            Condition::And(cs) => forall|i: int|
                0 <= i < cs@.len() ==> self.condition_holds(#[trigger] cs@[i], s, r, a, e, now),
            Condition::Or(cs) => exists|i: int|
                0 <= i < cs@.len() && self.condition_holds(#[trigger] cs@[i], s, r, a, e, now),
            Condition::Attribute(m) => self.matcher_holds(m, s, r, a, e, now),
            Condition::RbacCheck(req) => self.requirement_holds(req, s, now),
        }
    }

    /// Each matcher of a target holds.
    pub open spec fn target_holds(&self, t: Target, s: Subject, r: Resource, a: Action, e: Environment, now: int) -> bool {
        &&& (t.subject matches Some(m) ==> self.matcher_holds(m, s, r, a, e, now))
        &&& (t.resource matches Some(m) ==> self.matcher_holds(m, s, r, a, e, now))
        &&& (t.action matches Some(m) ==> self.matcher_holds(m, s, r, a, e, now))
        &&& (t.environment matches Some(m) ==> self.matcher_holds(m, s, r, a, e, now))
    }

    /// The decision of a role-based policy: not applicable to other resource types
    /// or actions; permit when the subject holds the role, deny otherwise.
    pub open spec fn rbac_decision(p: RbacPolicy, s: Subject, r: Resource, a: Action) -> Decision {
        if r.resource_type@ != p.resource@ || a.name@ != p.action@ {
            Decision::NotApplicable
        } else if lists(strs(s.roles@), p.required_role@) {
            Decision::Permit
        } else {
            Decision::Deny
        }
    }

    /// The decision of an attribute-based policy: its effect when its target
    /// matches and its condition (if any) holds; not applicable otherwise.
    pub open spec fn abac_decision(&self, p: AbacPolicy, s: Subject, r: Resource, a: Action, e: Environment, now: int) -> Decision {
        if !self.target_holds(p.target, s, r, a, e, now) {
            Decision::NotApplicable
        } else if p.condition matches Some(c) && !self.condition_holds(c, s, r, a, e, now) {
            Decision::NotApplicable
        } else {
            match p.effect {
                Effect::Permit => Decision::Permit,
                Effect::Deny => Decision::Deny,
            }
        }
    }

    /// All conditions of `cs` hold.
    pub open spec fn all_hold(&self, cs: Seq<Condition>, s: Subject, r: Resource, a: Action, e: Environment, now: int) -> bool {
        forall|i: int| 0 <= i < cs.len() ==> self.condition_holds(#[trigger] cs[i], s, r, a, e, now)
    }

    /// The decision of a hybrid policy: it permits when its parts pass by its
    /// combination logic (both for `RbacAndAbac` and `RbacThenAbac`, either for
    /// `RbacOrAbac`), and denies otherwise; it always applies.
    pub open spec fn hybrid_decision(&self, p: HybridPolicy, s: Subject, r: Resource, a: Action, e: Environment, now: int) -> Decision {
        let by_role = self.hybrid_requirement_holds(p.rbac_requirement, s, now);
        let by_attributes = self.all_hold(p.abac_conditions@, s, r, a, e, now);
        let pass = match p.combination_logic {
            CombinationLogic::RbacAndAbac => by_role && by_attributes,
            CombinationLogic::RbacOrAbac => by_role || by_attributes,
            CombinationLogic::RbacThenAbac => by_role && by_attributes,
        };
        if pass {
            Decision::Permit
        } else {
            Decision::Deny
        }
    }

    /// The decision of one policy.
    pub open spec fn policy_decision(&self, p: PolicyType, s: Subject, r: Resource, a: Action, e: Environment, now: int) -> Decision {
        match p {
            PolicyType::Rbac(q) => Self::rbac_decision(q, s, r, a),
            PolicyType::Abac(q) => self.abac_decision(q, s, r, a, e, now),
            PolicyType::Hybrid(q) => self.hybrid_decision(q, s, r, a, e, now),
        }
    }

    /// The decisions of the policies, in order.
    pub open spec fn decisions(&self, s: Subject, r: Resource, a: Action, e: Environment, now: int) -> Seq<Decision> {
        self.policies().map_values(|p: PolicyType| self.policy_decision(p, s, r, a, e, now))
    }

    /// The engine's decision for a request at `now`.
    pub open spec fn decide(&self, s: Subject, r: Resource, a: Action, e: Environment, now: int) -> Decision {
        combine(self.decisions(s, r, a, e, now))
    }

    /// An engine over `rbac_engine` with no policies.
    pub fn new(rbac_engine: RbacEngine) -> (r: HybridPolicyEngine)
        ensures
            r.rbac() == rbac_engine,
            r.policies().len() == 0,
    {
        HybridPolicyEngine { rbac_engine, policies: Vec::new() }
    }

    /// Appends a policy.
    pub fn add_policy(&mut self, policy: PolicyType)
        ensures
            final(self).policies() == old(self).policies().push(policy),
            final(self).rbac() == old(self).rbac(),
    {
        self.policies.push(policy);
    }

    /// The engine's decision for a request, with the clock read at `now`.
    pub fn evaluate_at(&self, subject: &Subject, resource: &Resource, action: &Action, environment: &Environment, now: i128) -> (d: Decision)
        ensures
            d == self.decide(*subject, *resource, *action, *environment, now as int),
    {
        let ghost ds = self.decisions(*subject, *resource, *action, *environment, now as int);
        let mut any_deny = false;
        let mut any_permit = false;
        let mut i: usize = 0;
        while i < self.policies.len()
            invariant
                i <= self.policies@.len(),
                ds == self.decisions(*subject, *resource, *action, *environment, now as int),
                ds.len() == self.policies@.len(),
                any_deny == ds.take(i as int).contains(Decision::Deny),
                any_permit == ds.take(i as int).contains(Decision::Permit),
            decreases self.policies.len() - i,
        {
            let d = match &self.policies[i] {
                PolicyType::Rbac(p) => Self::evaluate_rbac_policy(p, subject, resource, action),
                PolicyType::Abac(p) => self.evaluate_abac_policy(p, subject, resource, action, environment, now),
                PolicyType::Hybrid(p) => self.evaluate_hybrid_policy(p, subject, resource, action, environment, now),
            };
            proof {
                assert(ds[i as int] == d);
                assert(ds.take(i + 1) =~= ds.take(i as int).push(d));
                if ds.take(i as int).contains(Decision::Deny) {
                    let k = choose|k: int| 0 <= k < i && ds.take(i as int)[k] == Decision::Deny;
                    assert(ds.take(i + 1)[k] == Decision::Deny);
                }
                if ds.take(i as int).contains(Decision::Permit) {
                    let k = choose|k: int| 0 <= k < i && ds.take(i as int)[k] == Decision::Permit;
                    assert(ds.take(i + 1)[k] == Decision::Permit);
                }
                if d == Decision::Deny {
                    assert(ds.take(i + 1)[i as int] == Decision::Deny);
                }
                if d == Decision::Permit {
                    assert(ds.take(i + 1)[i as int] == Decision::Permit);
                }
            }
            if d == Decision::Deny {
                any_deny = true;
            }
            if d == Decision::Permit {
                any_permit = true;
            }
            i = i + 1;
        }
        assert(ds.take(ds.len() as int) =~= ds);
        if any_deny {
            Decision::Deny
        } else if any_permit {
            Decision::Permit
        } else {
            Decision::Deny
        }
    }

    /// The engine's decision for a request, with the clock read once now.
    pub fn evaluate(&self, subject: &Subject, resource: &Resource, action: &Action, environment: &Environment) -> (d: Decision)
        ensures
            exists|t: int| valid_instant(t) && d == self.decide(*subject, *resource, *action, *environment, t),
    {
        let t = now();
        self.evaluate_at(subject, resource, action, environment, t)
    }

    /// The decision of a role-based policy.
    fn evaluate_rbac_policy(policy: &RbacPolicy, subject: &Subject, resource: &Resource, action: &Action) -> (d: Decision)
        ensures
            d == Self::rbac_decision(*policy, *subject, *resource, *action),
    {
        if !str_eq(resource.resource_type.as_str(), policy.resource.as_str()) || !str_eq(
            action.name.as_str(),
            policy.action.as_str(),
        ) {
            return Decision::NotApplicable;
        }
        if list_contains(&subject.roles, policy.required_role.as_str()) {
            Decision::Permit
        } else {
            Decision::Deny
        }
    }

    /// The decision of an attribute-based policy.
    fn evaluate_abac_policy(
        &self,
        policy: &AbacPolicy,
        subject: &Subject,
        resource: &Resource,
        action: &Action,
        environment: &Environment,
        now: i128,
    ) -> (d: Decision)
        ensures
            d == self.abac_decision(*policy, *subject, *resource, *action, *environment, now as int),
    {
        if !self.matches_target(&policy.target, subject, resource, action, environment, now) {
            return Decision::NotApplicable;
        }
        match &policy.condition {
            Some(c) => {
                if !self.evaluate_condition(c, subject, resource, action, environment, now) {
                    return Decision::NotApplicable;
                }
            },
            None => {},
        }
        match policy.effect {
            Effect::Permit => Decision::Permit,
            Effect::Deny => Decision::Deny,
        }
    }

    /// The decision of a hybrid policy.
    fn evaluate_hybrid_policy(
        &self,
        policy: &HybridPolicy,
        subject: &Subject,
        resource: &Resource,
        action: &Action,
        environment: &Environment,
        now: i128,
    ) -> (d: Decision)
        ensures
            d == self.hybrid_decision(*policy, *subject, *resource, *action, *environment, now as int),
    {
        let rbac_result = self.evaluate_hybrid_requirement(&policy.rbac_requirement, subject, now);
        let abac_result = self.evaluate_all(&policy.abac_conditions, subject, resource, action, environment, now);
        match policy.combination_logic {
            CombinationLogic::RbacAndAbac => {
                if rbac_result && abac_result {
                    Decision::Permit
                } else {
                    Decision::Deny
                }
            },
            CombinationLogic::RbacOrAbac => {
                if rbac_result || abac_result {
                    Decision::Permit
                } else {
                    Decision::Deny
                }
            },
            CombinationLogic::RbacThenAbac => {
                if rbac_result {
                    if abac_result {
                        Decision::Permit
                    } else {
                        Decision::Deny
                    }
                } else {
                    Decision::Deny
                }
            },
        }
    }

    /// Every condition of `conditions` holds.
    fn evaluate_all(
        &self,
        conditions: &Vec<Condition>,
        subject: &Subject,
        resource: &Resource,
        action: &Action,
        environment: &Environment,
        now: i128,
    ) -> (r: bool)
        ensures
            r == self.all_hold(conditions@, *subject, *resource, *action, *environment, now as int),
    {
        let mut i: usize = 0;
        while i < conditions.len()
            invariant
                i <= conditions@.len(),
                forall|k: int| 0 <= k < i ==> self.condition_holds(#[trigger] conditions@[k], *subject, *resource, *action, *environment, now as int),
            decreases conditions.len() - i,
        {
            if !self.evaluate_condition(&conditions[i], subject, resource, action, environment, now) {
                return false;
            }
            i = i + 1;
        }
        true
    }

    /// The role requirement of a condition holds.
    fn evaluate_rbac_requirement(&self, requirement: &RbacRequirement, subject: &Subject, now: i128) -> (r: bool)
        ensures
            r == self.requirement_holds(*requirement, *subject, now as int),
    {
        match requirement {
            RbacRequirement::AnyRole(roles) => any_role_held(roles, &subject.roles),
            RbacRequirement::AllRoles(roles) => all_roles_held(roles, &subject.roles),
            RbacRequirement::Permission(p) => self.rbac_engine.has_permission_at(
                subject.id.as_str(),
                p.resource.as_str(),
                p.action.as_str(),
                now,
                None,
            ),
        }
    }

    /// The role requirement of a hybrid policy holds.
    fn evaluate_hybrid_requirement(&self, requirement: &HybridRequirement, subject: &Subject, now: i128) -> (r: bool)
        ensures
            r == self.hybrid_requirement_holds(*requirement, *subject, now as int),
    {
        match requirement {
            HybridRequirement::AnyRole(roles) => any_role_held(roles, &subject.roles),
            HybridRequirement::AllRoles(roles) => all_roles_held(roles, &subject.roles),
            HybridRequirement::Permission(p) => self.rbac_engine.has_permission_at(
                subject.id.as_str(),
                p.resource.as_str(),
                p.action.as_str(),
                now,
                None,
            ),
        }
    }

    /// Each matcher of the target holds.
    fn matches_target(
        &self,
        target: &Target,
        subject: &Subject,
        resource: &Resource,
        action: &Action,
        environment: &Environment,
        now: i128,
    ) -> (r: bool)
        ensures
            r == self.target_holds(*target, *subject, *resource, *action, *environment, now as int),
    {
        if let Some(m) = &target.subject {
            if !self.matches_attribute_enhanced(m, subject, resource, action, environment, now) {
                return false;
            }
        }
        if let Some(m) = &target.resource {
            if !self.matches_attribute_enhanced(m, subject, resource, action, environment, now) {
                return false;
            }
        }
        if let Some(m) = &target.action {
            if !self.matches_attribute_enhanced(m, subject, resource, action, environment, now) {
                return false;
            }
        }
        if let Some(m) = &target.environment {
            if !self.matches_attribute_enhanced(m, subject, resource, action, environment, now) {
                return false;
            }
        }
        true
    }

    /// An attribute matcher holds.
    fn matches_attribute_enhanced(
        &self,
        matcher: &AttributeMatcher,
        subject: &Subject,
        resource: &Resource,
        action: &Action,
        environment: &Environment,
        now: i128,
    ) -> (r: bool)
        ensures
            r == self.matcher_holds(*matcher, *subject, *resource, *action, *environment, now as int),
    {
        match matcher.operator {
            Operator::HasRole => match &matcher.value {
                AttributeValue::String(role) => list_contains(&subject.roles, role.as_str()),
                _ => false,
            },
            Operator::IsOwner => match &resource.owner {
                Some(owner) => str_eq(owner.as_str(), subject.id.as_str()),
                None => false,
            },
            Operator::InTimeWindow => self.rbac_engine.check_time_window_advanced_at(&matcher.value, environment, now),
            Operator::HasAttribute => match &matcher.value {
                AttributeValue::String(name) => subject.attributes.contains_key(name.as_str()),
                _ => false,
            },
            Operator::LocationMatch => match environment.attributes.get("location") {
                Some(AttributeValue::String(current)) => match &matcher.value {
                    AttributeValue::String(required) => str_eq(current.as_str(), required.as_str()),
                    AttributeValue::Array(allowed) => list_contains(allowed, current.as_str()),
                    _ => false,
                },
                _ => false,
            },
            Operator::SessionValid => match environment.attributes.get("session_id") {
                Some(AttributeValue::String(sid)) => self.session_valid(subject.id.as_str(), sid.as_str(), now),
                _ => false,
            },
            Operator::DelegationValid => self.rbac_engine.check_delegation_validity_at(subject.id.as_str(), &matcher.value, now),
            Operator::TimeWindow => self.rbac_engine.check_time_window_advanced_at(&matcher.value, environment, now),
            _ => Self::check_standard_attributes(matcher, subject, resource, action, environment),
        }
    }

    /// `user` has a session with id `sid` that is active at `now`.
    fn session_valid(&self, user: &str, sid: &str, now: i128) -> (r: bool)
        ensures
            r == match self.rbac().active_sessions.lookup(user@) {
                Some(sessions) => exists|j: int|
                    0 <= j < sessions@.len() && (#[trigger] sessions@[j]).session_id@ == sid@
                        && session_active_at(sessions@[j], now as int),
                None => false,
            },
    {
        match self.rbac_engine.active_sessions.get(user) {
            Some(sessions) => {
                let mut j: usize = 0;
                while j < sessions.len()
                    invariant
                        self.rbac().active_sessions.lookup(user@) == Some(*sessions),
                        j <= sessions@.len(),
                        forall|k: int| 0 <= k < j ==> !((#[trigger] sessions@[k]).session_id@ == sid@
                            && session_active_at(sessions@[k], now as int)),
                    decreases sessions.len() - j,
                {
                    if str_eq(sessions[j].session_id.as_str(), sid) && self.rbac_engine.is_session_active_at(&sessions[j], now) {
                        assert(sessions@[j as int].session_id@ == sid@);
                        return true;
                    }
                    j = j + 1;
                }
                false
            },
            None => false,
        }
    }

    /// A comparison matcher holds on one of the four attribute collections.
    fn check_standard_attributes(
        matcher: &AttributeMatcher,
        subject: &Subject,
        resource: &Resource,
        action: &Action,
        environment: &Environment,
    ) -> (r: bool)
        ensures
            r == standard_match(*matcher, *subject, *resource, *action, *environment),
    {
        check_attribute(&subject.attributes, matcher) || check_attribute(&resource.attributes, matcher)
            || check_attribute(&action.attributes, matcher) || check_attribute(&environment.attributes, matcher)
    }

    /// A condition holds.
    fn evaluate_condition(
        &self,
        condition: &Condition,
        subject: &Subject,
        resource: &Resource,
        action: &Action,
        environment: &Environment,
        now: i128,
    ) -> (r: bool)
        ensures
            r == self.condition_holds(*condition, *subject, *resource, *action, *environment, now as int),
        decreases condition,
    {
        match condition {
            Condition::And(conditions) => {
                let mut i: usize = 0;
                while i < conditions.len()
                    invariant
                        *condition == Condition::And(*conditions),
                        i <= conditions@.len(),
                        forall|k: int| 0 <= k < i ==> self.condition_holds(#[trigger] conditions@[k], *subject, *resource, *action, *environment, now as int),
                    decreases conditions.len() - i,
                {
                    proof {
                        let c = *condition;
                        let cs = c->And_0;
                        assert(cs == *conditions);
                        assert(decreases_to!(c => cs));
                        assert(decreases_to!(cs => cs@));
                        assert(decreases_to!(cs@ => cs@[i as int]));
                        assert(decreases_to!(c => cs@[i as int]));
                    }
                    if !self.evaluate_condition(&conditions[i], subject, resource, action, environment, now) {
                        return false;
                    }
                    i = i + 1;
                }
                true
            },
            Condition::Or(conditions) => {
                let mut i: usize = 0;
                while i < conditions.len()
                    invariant
                        *condition == Condition::Or(*conditions),
                        i <= conditions@.len(),
                        forall|k: int| 0 <= k < i ==> !self.condition_holds(#[trigger] conditions@[k], *subject, *resource, *action, *environment, now as int),
                    decreases conditions.len() - i,
                {
                    proof {
                        let c = *condition;
                        let cs = c->Or_0;
                        assert(cs == *conditions);
                        assert(decreases_to!(c => cs));
                        assert(decreases_to!(cs => cs@));
                        assert(decreases_to!(cs@ => cs@[i as int]));
                        assert(decreases_to!(c => cs@[i as int]));
                    }
                    if self.evaluate_condition(&conditions[i], subject, resource, action, environment, now) {
                        return true;
                    }
                    i = i + 1;
                }
                false
            },
            Condition::Attribute(m) => self.matches_attribute_enhanced(m, subject, resource, action, environment, now),
            Condition::RbacCheck(req) => self.evaluate_rbac_requirement(req, subject, now),
        }
    }
}


/// A location matcher reads the request's environment alone: whether it holds does
/// not depend on the subject, the resource or the action; it holds when the
/// environment's `location` is the text the matcher names or one of the texts it
/// lists, and never when the environment has no text `location`.
pub proof fn lemma_location_match_reads_environment(
    engine: HybridPolicyEngine,
    m: AttributeMatcher,
    s: Subject,
    s2: Subject,
    r: Resource,
    r2: Resource,
    a: Action,
    a2: Action,
    e: Environment,
    now: int,
)
    requires
        m.operator == Operator::LocationMatch,
    ensures
        engine.matcher_holds(m, s, r, a, e, now) == engine.matcher_holds(m, s2, r2, a2, e, now),
        (e.attributes.lookup("location"@) matches Some(AttributeValue::String(cur)) && m.value matches AttributeValue::String(
            required,
        ) && cur@ == required@) ==> engine.matcher_holds(m, s, r, a, e, now),
        (e.attributes.lookup("location"@) matches Some(AttributeValue::String(cur)) && m.value matches AttributeValue::Array(
            allowed,
        ) && exists|i: int| 0 <= i < allowed@.len() && (#[trigger] allowed@[i])@ == cur@) ==> engine.matcher_holds(
            m,
            s,
            r,
            a,
            e,
            now,
        ),
        !(e.attributes.lookup("location"@) matches Some(AttributeValue::String(_))) ==> !engine.matcher_holds(
            m,
            s,
            r,
            a,
            e,
            now,
        ),
{
    if let Some(AttributeValue::String(cur)) = e.attributes.lookup("location"@) {
        if let AttributeValue::Array(allowed) = m.value {
            if exists|i: int| 0 <= i < allowed@.len() && (#[trigger] allowed@[i])@ == cur@ {
                let i = choose|i: int| 0 <= i < allowed@.len() && (#[trigger] allowed@[i])@ == cur@;
                assert(strs(allowed@)[i] == cur@);
            }
        }
    }
}

/// A policy that denies makes the engine deny, whatever the other policies decide.
pub proof fn lemma_deny_overrides(
    engine: HybridPolicyEngine,
    i: int,
    s: Subject,
    r: Resource,
    a: Action,
    e: Environment,
    now: int,
)
    requires
        0 <= i < engine.policies().len(),
        engine.policy_decision(engine.policies()[i], s, r, a, e, now) == Decision::Deny,
    ensures
        engine.decide(s, r, a, e, now) == Decision::Deny,
{
    assert(engine.decisions(s, r, a, e, now)[i] == Decision::Deny);
}

/// The engine never answers "not applicable", and it permits exactly when some
/// policy permits and none denies.
pub proof fn lemma_permit_exactly(engine: HybridPolicyEngine, s: Subject, r: Resource, a: Action, e: Environment, now: int)
    ensures
        engine.decide(s, r, a, e, now) != Decision::NotApplicable,
        engine.decide(s, r, a, e, now) == Decision::Permit <==> (
            (exists|i: int| 0 <= i < engine.policies().len() && engine.policy_decision(#[trigger] engine.policies()[i], s, r, a, e, now) == Decision::Permit)
            && !(exists|i: int| 0 <= i < engine.policies().len() && engine.policy_decision(#[trigger] engine.policies()[i], s, r, a, e, now) == Decision::Deny)),
{
    let ds = engine.decisions(s, r, a, e, now);
    if exists|i: int| 0 <= i < engine.policies().len() && engine.policy_decision(#[trigger] engine.policies()[i], s, r, a, e, now) == Decision::Deny {
        let i = choose|i: int| 0 <= i < engine.policies().len() && engine.policy_decision(#[trigger] engine.policies()[i], s, r, a, e, now) == Decision::Deny;
        assert(ds[i] == Decision::Deny);
    }
    if exists|i: int| 0 <= i < engine.policies().len() && engine.policy_decision(#[trigger] engine.policies()[i], s, r, a, e, now) == Decision::Permit {
        let i = choose|i: int| 0 <= i < engine.policies().len() && engine.policy_decision(#[trigger] engine.policies()[i], s, r, a, e, now) == Decision::Permit;
        assert(ds[i] == Decision::Permit);
    }
    if ds.contains(Decision::Deny) {
        let k = choose|k: int| 0 <= k < ds.len() && ds[k] == Decision::Deny;
        assert(engine.policy_decision(engine.policies()[k], s, r, a, e, now) == Decision::Deny);
    }
    if ds.contains(Decision::Permit) {
        let k = choose|k: int| 0 <= k < ds.len() && ds[k] == Decision::Permit;
        assert(engine.policy_decision(engine.policies()[k], s, r, a, e, now) == Decision::Permit);
    }
}

/// An engine without policies denies every request.
pub proof fn lemma_no_policy_denies(engine: HybridPolicyEngine, s: Subject, r: Resource, a: Action, e: Environment, now: int)
    requires
        engine.policies().len() == 0,
    ensures
        engine.decide(s, r, a, e, now) == Decision::Deny,
{
    let ds = engine.decisions(s, r, a, e, now);
    assert(!ds.contains(Decision::Deny));
    assert(!ds.contains(Decision::Permit));
}

/// The decision depends on which policies an engine holds, not on their order or
/// repetition: two engines over the same role-based engine whose policies are the
/// same set decide alike.
pub proof fn lemma_order_irrelevant(
    e1: HybridPolicyEngine,
    e2: HybridPolicyEngine,
    s: Subject,
    r: Resource,
    a: Action,
    e: Environment,
    now: int,
)
    requires
        e1.rbac() == e2.rbac(),
        forall|i: int| 0 <= i < e1.policies().len() ==> e2.policies().contains(#[trigger] e1.policies()[i]),
        forall|i: int| 0 <= i < e2.policies().len() ==> e1.policies().contains(#[trigger] e2.policies()[i]),
    ensures
        e1.decide(s, r, a, e, now) == e2.decide(s, r, a, e, now),
{
    lemma_same_policy_decisions(e1, e2, s, r, a, e, now);
    lemma_permit_exactly(e1, s, r, a, e, now);
    lemma_permit_exactly(e2, s, r, a, e, now);
    let d1 = e1.decisions(s, r, a, e, now);
    let d2 = e2.decisions(s, r, a, e, now);
    assert forall|d: Decision| d1.contains(d) implies d2.contains(d) by {
        let i = choose|i: int| 0 <= i < d1.len() && d1[i] == d;
        let p = e1.policies()[i];
        assert(e2.policies().contains(p));
        let j = choose|j: int| 0 <= j < e2.policies().len() && e2.policies()[j] == p;
        assert(d2[j] == d);
    }
    assert forall|d: Decision| d2.contains(d) implies d1.contains(d) by {
        let j = choose|j: int| 0 <= j < d2.len() && d2[j] == d;
        let p = e2.policies()[j];
        assert(e1.policies().contains(p));
        let i = choose|i: int| 0 <= i < e1.policies().len() && e1.policies()[i] == p;
        assert(d1[i] == d);
    }
    assert(d1.contains(Decision::Deny) == d2.contains(Decision::Deny));
    assert(d1.contains(Decision::Permit) == d2.contains(Decision::Permit));
}

/// Two engines over the same role-based engine decide each policy alike.
pub proof fn lemma_same_policy_decisions(
    e1: HybridPolicyEngine,
    e2: HybridPolicyEngine,
    s: Subject,
    r: Resource,
    a: Action,
    e: Environment,
    now: int,
)
    requires
        e1.rbac() == e2.rbac(),
    ensures
        forall|p: PolicyType| #[trigger] e1.policy_decision(p, s, r, a, e, now) == e2.policy_decision(p, s, r, a, e, now),
{
    assert forall|p: PolicyType| #[trigger] e1.policy_decision(p, s, r, a, e, now) == e2.policy_decision(p, s, r, a, e, now) by {
        assert forall|c: Condition| #[trigger] e1.condition_holds(c, s, r, a, e, now) == e2.condition_holds(c, s, r, a, e, now) by {
            lemma_same_condition(e1, e2, c, s, r, a, e, now);
        }
        assert forall|m: AttributeMatcher| #[trigger] e1.matcher_holds(m, s, r, a, e, now) == e2.matcher_holds(m, s, r, a, e, now) by {}
    }
}

/// Two engines over the same role-based engine judge each condition alike.
pub proof fn lemma_same_condition(
    e1: HybridPolicyEngine,
    e2: HybridPolicyEngine,
    c: Condition,
    s: Subject,
    r: Resource,
    a: Action,
    e: Environment,
    now: int,
)
    requires
        e1.rbac() == e2.rbac(),
    ensures
        e1.condition_holds(c, s, r, a, e, now) == e2.condition_holds(c, s, r, a, e, now),
    decreases c,
{
    match c {
        Condition::And(cs) => {
            assert forall|i: int| 0 <= i < cs@.len() implies e1.condition_holds(#[trigger] cs@[i], s, r, a, e, now) == e2.condition_holds(cs@[i], s, r, a, e, now) by {
                lemma_same_condition(e1, e2, cs@[i], s, r, a, e, now);
            }
        },
        Condition::Or(cs) => {
            assert forall|i: int| 0 <= i < cs@.len() implies e1.condition_holds(#[trigger] cs@[i], s, r, a, e, now) == e2.condition_holds(cs@[i], s, r, a, e, now) by {
                lemma_same_condition(e1, e2, cs@[i], s, r, a, e, now);
            }
        },
        _ => {},
    }
}

/// Adding a policy never lifts a denial: an engine that denies because a policy
/// denies still denies after any policy is added; and adding a denying policy makes
/// it deny.
pub proof fn lemma_add_policy_keeps_denial(
    before: HybridPolicyEngine,
    after: HybridPolicyEngine,
    p: PolicyType,
    s: Subject,
    r: Resource,
    a: Action,
    e: Environment,
    now: int,
)
    requires
        after.rbac() == before.rbac(),
        after.policies() == before.policies().push(p),
    ensures
        before.decisions(s, r, a, e, now).contains(Decision::Deny) ==> after.decide(s, r, a, e, now) == Decision::Deny,
        after.policy_decision(p, s, r, a, e, now) == Decision::Deny ==> after.decide(s, r, a, e, now) == Decision::Deny,
{
    lemma_same_policy_decisions(before, after, s, r, a, e, now);
    let db = before.decisions(s, r, a, e, now);
    let da = after.decisions(s, r, a, e, now);
    if db.contains(Decision::Deny) {
        let k = choose|k: int| 0 <= k < db.len() && db[k] == Decision::Deny;
        assert(after.policies()[k] == before.policies()[k]);
        assert(da[k] == Decision::Deny);
    }
    if after.policy_decision(p, s, r, a, e, now) == Decision::Deny {
        assert(after.policies()[before.policies().len() as int] == p);
        assert(da[before.policies().len() as int] == Decision::Deny);
    }
}

/// The attribute of the matcher's name relates to the matcher's value.
fn check_attribute(attrs: &StrMap<AttributeValue>, matcher: &AttributeMatcher) -> (r: bool)
    ensures
        r == attribute_holds(*attrs, matcher.name@, matcher.operator, matcher.value),
{
    match attrs.get(matcher.name.as_str()) {
        Some(v) => apply_operator(matcher.operator, v, &matcher.value),
        None => false,
    }
}

/// The comparison `op` relates `left` to `right`.
pub fn apply_operator(op: Operator, left: &AttributeValue, right: &AttributeValue) -> (r: bool)
    ensures
        r == operator_holds(op, *left, *right),
{
    match op {
        Operator::Equals => left.equals(right),
        Operator::NotEquals => !left.equals(right),
        Operator::Contains => match (left, right) {
            (AttributeValue::String(l), AttributeValue::String(r)) => str_contains_str(l.as_str(), r.as_str()),
            (AttributeValue::Array(l), AttributeValue::String(r)) => list_contains(l, r.as_str()),
            _ => false,
        },
        Operator::GreaterThan => match (left, right) {
            (AttributeValue::Number(l), AttributeValue::Number(r)) => *l > *r,
            _ => false,
        },
        Operator::LessThan => match (left, right) {
            (AttributeValue::Number(l), AttributeValue::Number(r)) => *l < *r,
            _ => false,
        },
        Operator::In => match (left, right) {
            (AttributeValue::String(l), AttributeValue::Array(r)) => list_contains(r, l.as_str()),
            _ => false,
        },
        _ => false,
    }
}

/// `names` lists `name`.
pub fn list_contains(names: &Vec<String>, name: &str) -> (r: bool)
    ensures
        r == lists(strs(names@), name@),
{
    let mut i: usize = 0;
    while i < names.len()
        invariant
            i <= names@.len(),
            forall|k: int| 0 <= k < i ==> names@[k]@ != name@,
        decreases names.len() - i,
    {
        if str_eq(names[i].as_str(), name) {
            assert(strs(names@)[i as int] == name@);
            return true;
        }
        i = i + 1;
    }
    false
}

/// Some role of `wanted` is among `held`.
fn any_role_held(wanted: &Vec<String>, held: &Vec<String>) -> (r: bool)
    ensures
        r == exists|i: int| 0 <= i < wanted@.len() && lists(strs(held@), (#[trigger] wanted@[i])@),
{
    let mut i: usize = 0;
    while i < wanted.len()
        invariant
            i <= wanted@.len(),
            forall|k: int| 0 <= k < i ==> !lists(strs(held@), (#[trigger] wanted@[k])@),
        decreases wanted.len() - i,
    {
        if list_contains(held, wanted[i].as_str()) {
            return true;
        }
        i = i + 1;
    }
    false
}

/// Every role of `wanted` is among `held`.
fn all_roles_held(wanted: &Vec<String>, held: &Vec<String>) -> (r: bool)
    ensures
        r == forall|i: int| 0 <= i < wanted@.len() ==> lists(strs(held@), (#[trigger] wanted@[i])@),
{
    let mut i: usize = 0;
    while i < wanted.len()
        invariant
            i <= wanted@.len(),
            forall|k: int| 0 <= k < i ==> lists(strs(held@), (#[trigger] wanted@[k])@),
        decreases wanted.len() - i,
    {
        if !list_contains(held, wanted[i].as_str()) {
            return false;
        }
        i = i + 1;
    }
    true
}

} // verus!
