use hybrid_rbac_abac::abac::attribute::{Action, AttributeMatcher, Environment, Resource, Subject};
use hybrid_rbac_abac::abac::condition::{Condition, Operator};
use hybrid_rbac_abac::abac::policy::{AbacPolicy, Target};
use hybrid_rbac_abac::context::{
    action_for_method, context_from_request_parts, extract_resource_from_path, roles_from_header, AccessContext,
};
use hybrid_rbac_abac::dict::StrMap;
use hybrid_rbac_abac::clock::parse_rfc3339;
use hybrid_rbac_abac::hybrid::engine::{apply_operator, list_contains, HybridPolicyEngine};
use hybrid_rbac_abac::hybrid::policy::{CombinationLogic, HybridPolicy, PolicyType, RbacRequirement};
use hybrid_rbac_abac::rbac::delegation::DelegationConditions;
use hybrid_rbac_abac::rbac::engine::RbacEngine;
use hybrid_rbac_abac::rbac::permission::Permission;
use hybrid_rbac_abac::rbac::policy::RbacPolicy;
use hybrid_rbac_abac::rbac::role::{AssignmentConditions, Role, RoleConstraints};
use hybrid_rbac_abac::rbac::timespec::{
    check_time_spec, is_weekday_in_range, parse_time, parse_time_range, parse_weekday,
};
use hybrid_rbac_abac::types::common::{AttributeValue, Decision, Effect};
use hybrid_rbac_abac::types::time::Weekday;

const SECOND: i128 = 1_000_000_000;
const HOUR: i128 = 3600 * SECOND;
/// 2023-11-14 00:00:00 UTC, a Tuesday.
const TUESDAY: i128 = 1_699_920_000 * SECOND;
const DAY: i128 = 24 * HOUR;

fn text(s: &str) -> AttributeValue {
    AttributeValue::String(s.to_string())
}

fn subject(id: &str, roles: &[&str]) -> Subject {
    Subject { id: id.to_string(), roles: roles.iter().map(|r| r.to_string()).collect(), attributes: StrMap::new() }
}

fn resource(kind: &str) -> Resource {
    Resource { id: "1".to_string(), resource_type: kind.to_string(), owner: None, attributes: StrMap::new() }
}

fn action(name: &str) -> Action {
    Action { name: name.to_string(), attributes: StrMap::new() }
}

fn environment() -> Environment {
    let mut attributes = StrMap::new();
    attributes.insert("current_time".to_string(), text("2023-11-14T10:00:00Z"));
    Environment { attributes }
}

fn role(name: &str, perms: &[(&str, &str)]) -> Role {
    Role {
        name: name.to_string(),
        permissions: perms
            .iter()
            .map(|(r, a)| Permission { resource: r.to_string(), action: a.to_string(), conditions: vec![] })
            .collect(),
        constraints: RoleConstraints {
            max_duration: None,
            valid_time_windows: vec![],
            required_attributes: StrMap::new(),
            location_restrictions: vec![],
            concurrent_limit: None,
        },
        hierarchy_level: 1,
    }
}

fn plain_conditions() -> AssignmentConditions {
    AssignmentConditions {
        location: None,
        time_windows: vec![],
        required_attributes: StrMap::new(),
        auto_revoke_conditions: vec![],
    }
}

fn rbac_policy(role: &str, res: &str, act: &str) -> PolicyType {
    PolicyType::Rbac(RbacPolicy {
        id: "p".to_string(),
        required_role: role.to_string(),
        resource: res.to_string(),
        action: act.to_string(),
    })
}

#[test]
fn resource_from_path() {
    assert_eq!(extract_resource_from_path("/documents/42"), ("documents".to_string(), "42".to_string()));
    assert_eq!(extract_resource_from_path("/api/users/1"), ("users".to_string(), "1".to_string()));
    assert_eq!(extract_resource_from_path("/api/users"), ("users".to_string(), "all".to_string()));
    assert_eq!(extract_resource_from_path("/api"), ("unknown".to_string(), "unknown".to_string()));
    assert_eq!(extract_resource_from_path("/health"), ("health".to_string(), "all".to_string()));
    assert_eq!(extract_resource_from_path("/"), ("".to_string(), "all".to_string()));
    assert_eq!(extract_resource_from_path("//x/y"), ("x".to_string(), "y".to_string()));
}

#[test]
fn action_from_method() {
    assert_eq!(action_for_method("GET"), "read");
    assert_eq!(action_for_method("POST"), "create");
    assert_eq!(action_for_method("PUT"), "update");
    assert_eq!(action_for_method("PATCH"), "update");
    assert_eq!(action_for_method("DELETE"), "delete");
    assert_eq!(action_for_method("get"), "unknown");
}

#[test]
fn roles_from_a_header() {
    assert_eq!(roles_from_header(Some(" admin , user")), vec!["admin".to_string(), "user".to_string()]);
    assert_eq!(roles_from_header(Some("")), vec!["".to_string()]);
    assert!(roles_from_header(None).is_empty());
}

#[test]
fn context_of_a_request() {
    let ctx = context_from_request_parts(Some("u7"), Some("editor,viewer"), "/documents/9", "DELETE", Some("10.1.2.3"));
    assert_eq!(ctx.subject.id, "u7");
    assert_eq!(ctx.subject.roles, vec!["editor".to_string(), "viewer".to_string()]);
    assert_eq!(ctx.resource.resource_type, "documents");
    assert_eq!(ctx.resource.id, "9");
    assert_eq!(ctx.action.name, "delete");
    match ctx.environment.attributes.get("ip_address") {
        Some(AttributeValue::String(ip)) => assert_eq!(ip, "10.1.2.3"),
        _ => panic!("missing address"),
    }
    let api = context_from_request_parts(Some("u1"), Some("admin, user"), "/api/users/42", "GET", None);
    assert_eq!(api.subject.id, "u1");
    assert_eq!(api.subject.roles, vec!["admin".to_string(), "user".to_string()]);
    assert_eq!(api.action.name, "read");
    assert_eq!(api.resource.resource_type, "users");
    assert_eq!(api.resource.id, "42");
    assert!(api.resource.owner.is_none());
    assert!(api.environment.attributes.get("current_time").is_some());
    assert!(api.environment.attributes.get("ip_address").is_some());
    let anon = context_from_request_parts(None, None, "/x", "HEAD", None);
    assert_eq!(anon.subject.id, "anonymous");
    assert!(anon.subject.roles.is_empty());
    assert_eq!(anon.action.name, "unknown");
    match anon.environment.attributes.get("ip_address") {
        Some(AttributeValue::String(ip)) => assert_eq!(ip, "unknown"),
        _ => panic!("missing address"),
    }
}

#[test]
fn context_builders() {
    let ctx = AccessContext::new_at("u1", vec!["admin".to_string()], "2023-11-14T10:00:00Z".to_string())
        .with_resource("d1", "document", Some("u1"))
        .with_action("read")
        .with_subject_attr("department", text("eng"))
        .with_resource_attr("classification", text("secret"))
        .with_environment_attr("location", text("office"));
    assert_eq!(ctx.resource.id, "d1");
    assert_eq!(ctx.resource.resource_type, "document");
    assert_eq!(ctx.resource.owner, Some("u1".to_string()));
    assert_eq!(ctx.action.name, "read");
    assert!(ctx.subject.attributes.contains_key("department"));
    assert!(ctx.resource.attributes.contains_key("classification"));
    assert!(ctx.environment.attributes.contains_key("location"));
    assert!(ctx.environment.attributes.contains_key("current_time"));
    let fresh = AccessContext::new("u2", vec![]);
    assert!(fresh.environment.attributes.contains_key("current_time"));
}

#[test]
fn operators() {
    assert!(apply_operator(Operator::Equals, &text("a"), &text("a")));
    assert!(!apply_operator(Operator::Equals, &text("a"), &AttributeValue::Number(1)));
    assert!(apply_operator(Operator::NotEquals, &AttributeValue::Number(1), &AttributeValue::Number(2)));
    assert!(apply_operator(Operator::Contains, &text("engineering"), &text("gin")));
    assert!(apply_operator(Operator::Contains, &AttributeValue::Array(vec!["x".to_string()]), &text("x")));
    assert!(!apply_operator(Operator::Contains, &text("x"), &AttributeValue::Array(vec!["x".to_string()])));
    assert!(apply_operator(Operator::GreaterThan, &AttributeValue::Number(5), &AttributeValue::Number(3)));
    assert!(!apply_operator(Operator::GreaterThan, &AttributeValue::Number(3), &AttributeValue::Number(3)));
    assert!(apply_operator(Operator::LessThan, &AttributeValue::Number(2), &AttributeValue::Number(3)));
    assert!(apply_operator(Operator::In, &text("b"), &AttributeValue::Array(vec!["a".to_string(), "b".to_string()])));
    assert!(!apply_operator(Operator::In, &text("c"), &AttributeValue::Array(vec!["a".to_string()])));
    assert!(!apply_operator(Operator::HasRole, &text("a"), &text("a")));
    assert!(list_contains(&vec!["a".to_string(), "b".to_string()], "b"));
    assert!(!list_contains(&vec![], "b"));
}

#[test]
fn no_policy_denies() {
    let engine = HybridPolicyEngine::new(RbacEngine::new());
    let d = engine.evaluate(&subject("u", &["admin"]), &resource("document"), &action("read"), &environment());
    assert!(matches!(d, Decision::Deny));
}

#[test]
fn rbac_policy_decisions() {
    let mut engine = HybridPolicyEngine::new(RbacEngine::new());
    engine.add_policy(rbac_policy("editor", "document", "update"));
    let env = environment();
    assert!(matches!(engine.evaluate(&subject("u", &["editor"]), &resource("document"), &action("update"), &env), Decision::Permit));
    assert!(matches!(engine.evaluate(&subject("u", &["viewer"]), &resource("document"), &action("update"), &env), Decision::Deny));
    assert!(matches!(engine.evaluate(&subject("u", &["editor"]), &resource("user"), &action("update"), &env), Decision::Deny));
}

#[test]
fn deny_overrides_permit() {
    let mut engine = HybridPolicyEngine::new(RbacEngine::new());
    engine.add_policy(PolicyType::Abac(AbacPolicy {
        id: "everyone".to_string(),
        effect: Effect::Permit,
        target: Target { subject: None, resource: None, action: None, environment: None },
        condition: None,
    }));
    let env = environment();
    assert!(matches!(engine.evaluate(&subject("u", &[]), &resource("document"), &action("read"), &env), Decision::Permit));
    engine.add_policy(rbac_policy("admin", "document", "read"));
    assert!(matches!(engine.evaluate(&subject("u", &[]), &resource("document"), &action("read"), &env), Decision::Deny));
    assert!(matches!(engine.evaluate(&subject("u", &["admin"]), &resource("document"), &action("read"), &env), Decision::Permit));
}

#[test]
fn abac_target_and_condition() {
    let mut engine = HybridPolicyEngine::new(RbacEngine::new());
    engine.add_policy(PolicyType::Abac(AbacPolicy {
        id: "owners".to_string(),
        effect: Effect::Permit,
        target: Target {
            subject: None,
            resource: None,
            action: Some(AttributeMatcher { name: "name".to_string(), operator: Operator::HasRole, value: text("writer") }),
            environment: None,
        },
        condition: Some(Condition::Attribute(AttributeMatcher {
            name: "owner".to_string(),
            operator: Operator::IsOwner,
            value: AttributeValue::Boolean(true),
        })),
    }));
    let env = environment();
    let mut owned = resource("document");
    owned.owner = Some("u".to_string());
    assert!(matches!(engine.evaluate(&subject("u", &["writer"]), &owned, &action("update"), &env), Decision::Permit));
    assert!(matches!(engine.evaluate(&subject("v", &["writer"]), &owned, &action("update"), &env), Decision::Deny));
    assert!(matches!(engine.evaluate(&subject("u", &[]), &owned, &action("update"), &env), Decision::Deny));
}

#[test]
fn hybrid_combinations() {
    let attr = Condition::Attribute(AttributeMatcher {
        name: "department".to_string(),
        operator: Operator::Equals,
        value: text("eng"),
    });
    let mut engine = HybridPolicyEngine::new(RbacEngine::new());
    engine.add_policy(PolicyType::Hybrid(HybridPolicy {
        id: "h".to_string(),
        rbac_requirement: RbacRequirement::AnyRole(vec!["manager".to_string()]),
        abac_conditions: vec![attr],
        combination_logic: CombinationLogic::RbacOrAbac,
    }));
    let env = environment();
    let mut eng = subject("u", &[]);
    eng.attributes.insert("department".to_string(), text("eng"));
    assert!(matches!(engine.evaluate(&eng, &resource("document"), &action("read"), &env), Decision::Permit));
    assert!(matches!(engine.evaluate(&subject("u", &["manager"]), &resource("document"), &action("read"), &env), Decision::Permit));
    assert!(matches!(engine.evaluate(&subject("u", &["staff"]), &resource("document"), &action("read"), &env), Decision::Deny));

    let mut strict = HybridPolicyEngine::new(RbacEngine::new());
    strict.add_policy(PolicyType::Hybrid(HybridPolicy {
        id: "s".to_string(),
        rbac_requirement: RbacRequirement::AllRoles(vec!["manager".to_string(), "staff".to_string()]),
        abac_conditions: vec![],
        combination_logic: CombinationLogic::RbacAndAbac,
    }));
    assert!(matches!(strict.evaluate(&subject("u", &["staff", "manager"]), &resource("d"), &action("read"), &env), Decision::Permit));
    assert!(matches!(strict.evaluate(&subject("u", &["manager"]), &resource("d"), &action("read"), &env), Decision::Deny));
}

#[test]
fn rbac_permissions_and_hierarchy() {
    let mut rbac = RbacEngine::new();
    rbac.add_role(role("editor", &[("document", "read"), ("document", "update")]));
    rbac.add_role(role("admin", &[("user", "delete")]));
    rbac.set_role_hierarchy("admin", vec!["editor".to_string()]);
    rbac.assign_role_to_user_at("alice", "editor", TUESDAY);
    rbac.assign_role_to_user_at("carol", "admin", TUESDAY);
    let t = TUESDAY + HOUR;
    assert!(rbac.has_permission_at("alice", "document", "read", t, None));
    assert!(!rbac.has_permission_at("alice", "document", "delete", t, None));
    assert!(!rbac.has_permission_at("bob", "document", "read", t, None));
    assert!(rbac.has_permission_at("carol", "document", "update", t, None));
    assert!(rbac.has_permission_at("carol", "user", "delete", t, None));
    assert_eq!(rbac.get_active_roles_at_time("carol", t, None), vec!["admin".to_string(), "editor".to_string()]);
    assert!(rbac.has_permission("alice", "document", "read"));
    assert_eq!(rbac.get_user_roles("alice"), vec!["editor".to_string()]);
}

#[test]
fn rbac_revocation_needs_privileges() {
    let mut rbac = RbacEngine::new();
    rbac.add_role(role("editor", &[("document", "read")]));
    rbac.assign_role_to_user_at("alice", "editor", TUESDAY);
    rbac.assign_role_to_user_at("carol", "admin", TUESDAY);
    let t = TUESDAY + HOUR;
    assert_eq!(rbac.revoke_role_at("alice", "editor", "bob", t), Err("Insufficient privileges to revoke role".to_string()));
    assert!(rbac.has_permission_at("alice", "document", "read", t, None));
    assert_eq!(rbac.revoke_role_at("alice", "editor", "carol", t), Ok(()));
    assert!(!rbac.has_permission_at("alice", "document", "read", t, None));
}

#[test]
fn rbac_dynamic_assignment_expires() {
    let mut rbac = RbacEngine::new();
    rbac.add_role(role("editor", &[("document", "read")]));
    rbac.assign_role_to_user_at("carol", "admin", TUESDAY);
    let refused = rbac.assign_role_dynamic_at("alice", "editor", "bob", None, plain_conditions(), TUESDAY);
    assert_eq!(refused, Err("Insufficient privileges to assign role".to_string()));
    assert_eq!(rbac.assign_role_dynamic_at("alice", "editor", "carol", Some(HOUR), plain_conditions(), TUESDAY), Ok(()));
    assert!(rbac.has_permission_at("alice", "document", "read", TUESDAY + HOUR - 1, None));
    assert!(!rbac.has_permission_at("alice", "document", "read", TUESDAY + HOUR, None));
    rbac.cleanup_expired_assignments_at(TUESDAY + 2 * HOUR);
    assert!(rbac.get_active_roles_at_time("alice", TUESDAY, None).is_empty());
}

#[test]
fn rbac_location_bound_assignment() {
    let mut rbac = RbacEngine::new();
    rbac.add_role(role("editor", &[("document", "read")]));
    rbac.assign_role_to_user_at("carol", "admin", TUESDAY);
    let mut conditions = plain_conditions();
    conditions.location = Some("office".to_string());
    assert!(rbac.assign_role_dynamic_at("alice", "editor", "carol", None, conditions, TUESDAY).is_ok());
    assert!(rbac.has_permission_at("alice", "document", "read", TUESDAY, Some("office")));
    assert!(!rbac.has_permission_at("alice", "document", "read", TUESDAY, Some("home")));
    assert!(!rbac.has_permission_at("alice", "document", "read", TUESDAY, None));
}

#[test]
fn rbac_delegation() {
    let mut rbac = RbacEngine::new();
    rbac.add_role(role("editor", &[("document", "read")]));
    rbac.assign_role_to_user_at("alice", "editor", TUESDAY);
    let conditions = DelegationConditions {
        can_further_delegate: false,
        restricted_permissions: vec![],
        time_windows: vec![],
        approval_required: false,
        max_depth: 3,
    };
    let missing = rbac.delegate_role_at("bob", "dave", "editor", HOUR, conditions.clone(), TUESDAY);
    assert_eq!(missing, Err("Delegator does not have the role".to_string()));
    let id = rbac.delegate_role_at("alice", "bob", "editor", HOUR, conditions, TUESDAY).ok().unwrap();
    assert_eq!(id, "del_1699920000");
    assert!(rbac.has_permission_at("bob", "document", "read", TUESDAY + 1, None));
    assert!(!rbac.has_permission_at("bob", "document", "read", TUESDAY + HOUR, None));
    assert!(rbac.check_delegation_validity_at("bob", &text("editor"), TUESDAY + 1));
    assert!(!rbac.check_delegation_validity_at("bob", &text("editor"), TUESDAY + HOUR));
    assert!(!rbac.check_delegation_validity_at("bob", &AttributeValue::Number(1), TUESDAY + 1));
}

#[test]
fn rbac_sessions() {
    let mut rbac = RbacEngine::new();
    rbac.add_role(role("editor", &[("document", "read")]));
    rbac.assign_role_to_user_at("alice", "editor", TUESDAY);
    rbac.start_user_session_at("alice", "s1", None, "browser", TUESDAY);
    rbac.update_session_activity_at("alice", "s1", TUESDAY + HOUR);
    let sessions = rbac.active_sessions.get("alice").unwrap();
    assert_eq!(sessions.len(), 1);
    assert_eq!(sessions[0].active_roles, vec!["editor".to_string()]);
    assert_eq!(sessions[0].last_activity, TUESDAY + HOUR);
    assert!(rbac.is_session_active_at(&sessions[0], TUESDAY + HOUR + 1));
}

#[test]
fn weekdays_and_times() {
    assert!(matches!(parse_weekday("monday"), Some(Weekday::Mon)));
    assert!(matches!(parse_weekday("Fri"), Some(Weekday::Fri)));
    assert!(parse_weekday("xyz").is_none());
    assert!(is_weekday_in_range("MON-FRI", Weekday::Wed));
    assert!(!is_weekday_in_range("MON-FRI", Weekday::Sat));
    assert!(is_weekday_in_range("sat", Weekday::Sat));
    assert!(!is_weekday_in_range("FRI-MON", Weekday::Sat));
    assert_eq!(parse_time("09:30"), Some(9 * HOUR + 30 * 60 * SECOND));
    assert_eq!(parse_time("9:5"), Some(9 * HOUR + 5 * 60 * SECOND));
    assert_eq!(parse_time("24:00"), None);
    assert_eq!(parse_time("0930"), None);
    assert!(parse_time_range("09:00-17:00", TUESDAY + 10 * HOUR));
    assert!(!parse_time_range("09:00-17:00", TUESDAY + 18 * HOUR));
}

#[test]
fn time_specifications() {
    let env = environment();
    let ten = TUESDAY + 10 * HOUR;
    assert!(check_time_spec("BUSINESS_HOURS", ten, &env));
    assert!(check_time_spec("BUSINESS_HOURS", TUESDAY + 17 * HOUR, &env));
    assert!(!check_time_spec("BUSINESS_HOURS", TUESDAY + 17 * HOUR + 1, &env));
    assert!(!check_time_spec("BUSINESS_HOURS", ten + 4 * DAY, &env));
    assert!(check_time_spec("09:00-17:00", ten, &env));
    assert!(!check_time_spec("09:00-17:00", TUESDAY + 18 * HOUR, &env));
    assert!(check_time_spec("MON-FRI:09:00-17:00", ten, &env));
    assert!(!check_time_spec("MON-FRI:09:00-17:00", TUESDAY + 18 * HOUR, &env));
    assert!(!check_time_spec("MON-FRI:09:00-17:00", ten + 4 * DAY, &env));
    assert!(check_time_spec("TUE:09:00-10:00", ten, &env));
    assert!(check_time_spec("mon-fri:09:00-17:00", ten, &env));
    assert!(check_time_spec("Tuesday:09:00-10:00", ten, &env));
    assert!(!check_time_spec("WED:09:00-10:00", ten, &env));
    assert!(!check_time_spec("EMERGENCY", ten, &env));
    let mut emergency = environment();
    emergency.attributes.insert("emergency_mode".to_string(), AttributeValue::Boolean(true));
    assert!(check_time_spec("EMERGENCY", ten, &emergency));
}

#[test]
fn maintenance_window() {
    let env = environment();
    let sunday_three = parse_rfc3339("2024-01-07T03:00:00Z").unwrap();
    let sunday_five = parse_rfc3339("2024-01-07T05:00:00Z").unwrap();
    let monday_three = parse_rfc3339("2024-01-08T03:00:00Z").unwrap();
    assert!(check_time_spec("MAINTENANCE:SUN:02:00-04:00", sunday_three, &env));
    assert!(!check_time_spec("MAINTENANCE:SUN:02:00-04:00", sunday_five, &env));
    assert!(!check_time_spec("MAINTENANCE:SUN:02:00-04:00", monday_three, &env));
    assert!(!check_time_spec("MAINTENANCE:XYZ:02:00-04:00", sunday_three, &env));
    let wednesday_ten = parse_rfc3339("2024-01-10T10:00:00Z").unwrap();
    let saturday_ten = parse_rfc3339("2024-01-06T10:00:00Z").unwrap();
    assert!(check_time_spec("MON-FRI:09:00-17:00", wednesday_ten, &env));
    assert!(check_time_spec("09:00-17:00", wednesday_ten, &env));
    assert!(!check_time_spec("MON-FRI:09:00-17:00", saturday_ten, &env));
    assert!(check_time_spec("09:00-17:00", saturday_ten, &env));
}

#[test]
fn time_window_matcher_reads_current_time() {
    let rbac = RbacEngine::new();
    let env = environment();
    assert!(rbac.check_time_window_advanced_at(&text("BUSINESS_HOURS"), &env, TUESDAY + 22 * HOUR));
    assert!(rbac.check_time_window_advanced_at(
        &AttributeValue::Array(vec!["EMERGENCY".to_string(), "BUSINESS_HOURS".to_string()]),
        &env,
        0
    ));
    assert!(!rbac.check_time_window_advanced_at(&AttributeValue::Number(3), &env, TUESDAY));
}

fn environment_at(time: &str) -> Environment {
    let mut attributes = StrMap::new();
    attributes.insert("current_time".to_string(), text(time));
    Environment { attributes }
}

#[test]
fn default_policies_refuse_non_users() {
    let engine = hybrid_rbac_abac::setup::setup_hybrid_engine();
    let env = environment_at("2023-11-14T10:00:00Z");
    let d = engine.evaluate(&subject("root", &["admin"]), &resource("users"), &action("read"), &env);
    assert!(matches!(d, Decision::Deny));
    let mut users = resource("users");
    users.id = "42".to_string();
    let d = engine.evaluate(&subject("u1", &["user"]), &users, &action("read"), &env);
    assert!(matches!(d, Decision::Deny));
    let d = engine.evaluate(&subject("nobody", &[]), &users, &action("read"), &env);
    assert!(matches!(d, Decision::Deny));
    let rbac = hybrid_rbac_abac::setup::default_rbac_engine();
    assert!(rbac.roles.get("admin").is_some());
    assert!(rbac.roles.get("user").is_some());
    assert!(rbac.roles.get("guest").is_none());
}

#[test]
fn hybrid_policy_denies_when_its_roles_fail() {
    let mut engine = HybridPolicyEngine::new(RbacEngine::new());
    engine.add_policy(PolicyType::Hybrid(HybridPolicy {
        id: "managers-in-eng".to_string(),
        rbac_requirement: RbacRequirement::AnyRole(vec!["manager".to_string()]),
        abac_conditions: vec![Condition::Attribute(AttributeMatcher {
            name: "department".to_string(),
            operator: Operator::Equals,
            value: text("eng"),
        })],
        combination_logic: CombinationLogic::RbacAndAbac,
    }));
    engine.add_policy(PolicyType::Rbac(RbacPolicy {
        id: "staff-read".to_string(),
        required_role: "staff".to_string(),
        resource: "document".to_string(),
        action: "read".to_string(),
    }));
    let env = environment();
    assert!(matches!(engine.evaluate(&subject("u", &["staff"]), &resource("document"), &action("read"), &env), Decision::Deny));
    let mut eng = subject("u", &["staff", "manager"]);
    eng.attributes.insert("department".to_string(), text("eng"));
    assert!(matches!(engine.evaluate(&eng, &resource("document"), &action("read"), &env), Decision::Permit));

    let mut either = HybridPolicyEngine::new(RbacEngine::new());
    either.add_policy(PolicyType::Hybrid(HybridPolicy {
        id: "h".to_string(),
        rbac_requirement: RbacRequirement::AnyRole(vec!["user".to_string()]),
        abac_conditions: vec![],
        combination_logic: CombinationLogic::RbacOrAbac,
    }));
    assert!(matches!(either.evaluate(&subject("u", &[]), &resource(""), &action(""), &env), Decision::Permit));
    let mut both = HybridPolicyEngine::new(RbacEngine::new());
    both.add_policy(PolicyType::Hybrid(HybridPolicy {
        id: "h".to_string(),
        rbac_requirement: RbacRequirement::AnyRole(vec!["user".to_string()]),
        abac_conditions: vec![],
        combination_logic: CombinationLogic::RbacAndAbac,
    }));
    assert!(matches!(both.evaluate(&subject("u", &[]), &resource(""), &action(""), &env), Decision::Deny));
}

#[test]
fn default_policies_let_owners_read_in_business_hours() {
    let engine = hybrid_rbac_abac::setup::setup_hybrid_engine();
    let mut doc = resource("documents");
    doc.owner = Some("u1".to_string());
    let weekday = environment_at("2023-11-14T10:00:00Z");
    let weekend = environment_at("2023-11-18T10:00:00Z");
    let evening = environment_at("2023-11-14T18:30:00Z");
    assert!(matches!(engine.evaluate(&subject("u1", &["user"]), &doc, &action("read"), &weekday), Decision::Permit));
    assert!(matches!(engine.evaluate(&subject("u1", &["user"]), &doc, &action("read"), &weekend), Decision::Deny));
    assert!(matches!(engine.evaluate(&subject("u1", &["user"]), &doc, &action("read"), &evening), Decision::Deny));
    assert!(matches!(engine.evaluate(&subject("u2", &["user"]), &doc, &action("read"), &weekday), Decision::Deny));
}

#[test]
fn default_roles() {
    let admin = hybrid_rbac_abac::setup::admin_role();
    assert_eq!(admin.name, "admin");
    assert_eq!(admin.permissions.len(), 4);
    assert_eq!(admin.constraints.concurrent_limit, Some(5));
    let user = hybrid_rbac_abac::setup::user_role(vec![]);
    assert_eq!(user.permissions[0].conditions, vec!["ownership_required".to_string()]);
    assert_eq!(user.constraints.max_duration, Some(8 * HOUR));
    let hours = hybrid_rbac_abac::setup::business_hours();
    assert_eq!(hours.start_time as i128, 9 * HOUR);
    assert_eq!(hours.end_time as i128, 17 * HOUR);
}
