//! The service's default configuration: its roles, its policies and its accounts.
use vstd::prelude::*;

use crate::abac::attribute::{Action, AttributeMatcher, Environment, Resource, Subject};
use crate::abac::condition::{Condition, Operator};
use crate::abac::policy::{AbacPolicy, Target};
use crate::auth::service::{
    alnum_char, create_outcome, keyed_by_id, system_assignment, lower_char, numeral_char, strong_password, taken, upper_char,
    valid_email, AuthError, AuthService,
};
use crate::auth::user::{CreateUserRequest, User, UserProfile};
use crate::dict::{first_at, lemma_lookup_first, lookup_in, unique_keys, StrMap};
use crate::clock::{time_of_day, valid_instant, weekday_index, NANOS_PER_HOUR};
use crate::hybrid::engine::{lemma_deny_overrides, lists, HybridPolicyEngine};
use crate::rbac::timespec::{evaluation_time, time_value_holds};
use crate::hybrid::policy::RbacRequirement as HybridRequirement;
use crate::hybrid::policy::{CombinationLogic, HybridPolicy, PolicyType};
use crate::rbac::engine::RbacEngine;
use crate::rbac::permission::Permission;
use crate::rbac::policy::RbacPolicy;
use crate::rbac::role::{Role, RoleConstraints};
use crate::text::{owned, strs};
use crate::types::common::{AttributeValue, Decision, Effect};
use crate::types::time::{TimeWindow, Weekday};
use vstd::string::StringExecFns;
use vstd::utf8::{is_ascii_chars, is_ascii_chars_encode_utf8};

verus! {

/// Eight hours, in nanoseconds: the longest a plain user's role may be held.
pub const USER_ROLE_MAX_DURATION: i128 = 28_800_000_000_000;

/// `v` is the text `s`.
pub open spec fn is_text(v: AttributeValue, s: Seq<char>) -> bool {
    v matches AttributeValue::String(x) && x@ == s
}

/// `m` matches attribute `name` with `op` against the text `s`.
pub open spec fn text_matcher(m: AttributeMatcher, name: Seq<char>, op: Operator, s: Seq<char>) -> bool {
    m.name@ == name && m.operator == op && is_text(m.value, s)
}

/// `m` matches attribute `name` with `op` against the flag `b`.
pub open spec fn flag_matcher(m: AttributeMatcher, name: Seq<char>, op: Operator, b: bool) -> bool {
    m.name@ == name && m.operator == op && m.value == AttributeValue::Boolean(b)
}

/// The resources and actions that `r` grants, in order.
pub open spec fn grants(r: Role) -> Seq<(Seq<char>, Seq<char>)> {
    r.permissions@.map_values(|p: Permission| (p.resource@, p.action@))
}

/// The administrator role: users and documents may be read and updated; at most
/// five sessions.
pub open spec fn is_admin_role(r: Role) -> bool {
    &&& r.name@ == "admin"@
    &&& grants(r) == seq![
        ("users"@, "read"@),
        ("users"@, "update"@),
        ("documents"@, "read"@),
        ("documents"@, "update"@),
    ]
    &&& forall|i: int| 0 <= i < r.permissions@.len() ==> (#[trigger] r.permissions@[i]).conditions@.len() == 0
    &&& r.constraints.max_duration is None
    &&& r.constraints.valid_time_windows@.len() == 0
    &&& r.constraints.required_attributes.pairs().len() == 0
    &&& r.constraints.location_restrictions@.len() == 0
    &&& r.constraints.concurrent_limit == Some(5u32)
    &&& r.hierarchy_level == 0
}

/// The plain user role: documents may be read when owned; held at most eight hours
/// at a time, within the given windows; at most three sessions.
pub open spec fn is_user_role(r: Role, windows: Seq<TimeWindow>) -> bool {
    &&& r.name@ == "user"@
    &&& grants(r) == seq![("documents"@, "read"@)]
    &&& strs(r.permissions@[0].conditions@) == seq!["ownership_required"@]
    &&& r.constraints.max_duration == Some(USER_ROLE_MAX_DURATION)
    &&& r.constraints.valid_time_windows@ == windows
    &&& r.constraints.required_attributes.pairs().len() == 0
    &&& r.constraints.location_restrictions@.len() == 0
    &&& r.constraints.concurrent_limit == Some(3u32)
    &&& r.hierarchy_level == 1
}

/// The default policies, in order: administrators may read users; owners may read
/// documents; users may read their own documents in business hours; anything goes
/// in an emergency.
pub open spec fn default_policies(ps: Seq<PolicyType>) -> bool {
    &&& ps.len() == 4
    &&& ps[0] matches PolicyType::Rbac(p) && {
        &&& p.id@ == "admin-users-access"@
        &&& p.required_role@ == "admin"@
        &&& p.resource@ == "users"@
        &&& p.action@ == "read"@
    }
    &&& ps[1] matches PolicyType::Abac(p) && {
        &&& p.id@ == "owner-read-documents"@
        &&& p.effect == Effect::Permit
        &&& p.target.subject is None
        &&& p.target.resource matches Some(m) && text_matcher(m, "type_name"@, Operator::Equals, "documents"@)
        &&& p.target.action matches Some(m) && text_matcher(m, "name"@, Operator::Equals, "read"@)
        &&& p.target.environment is None
        &&& p.condition matches Some(Condition::Attribute(m)) && flag_matcher(m, "owner"@, Operator::IsOwner, true)
    }
    &&& ps[2] matches PolicyType::Hybrid(h) && {
        &&& h.id@ == "user-own-docs-business-hours"@
        &&& h.rbac_requirement matches HybridRequirement::AnyRole(roles) && strs(roles@) == seq!["user"@]
        &&& h.abac_conditions@.len() == 2
        &&& h.abac_conditions@[0] matches Condition::Attribute(m) && flag_matcher(m, "owner"@, Operator::IsOwner, true)
        &&& h.abac_conditions@[1] matches Condition::Attribute(m) && text_matcher(
            m,
            "current_time"@,
            Operator::InTimeWindow,
            "BUSINESS_HOURS"@,
        )
        &&& h.combination_logic == CombinationLogic::RbacAndAbac
    }
    &&& ps[3] matches PolicyType::Abac(p) && {
        &&& p.id@ == "emergency-access"@
        &&& p.effect == Effect::Permit
        &&& p.target.subject is None
        &&& p.target.resource is None
        &&& p.target.action is None
        &&& p.target.environment matches Some(m) && flag_matcher(m, "emergency_mode"@, Operator::Equals, true)
        &&& p.condition matches Some(Condition::Attribute(m)) && text_matcher(
            m,
            "current_time"@,
            Operator::InTimeWindow,
            "EMERGENCY"@,
        )
    }
}

/// A permission with no conditions.
fn plain_permission(resource: &str, action: &str) -> (p: Permission)
    ensures
        p.resource@ == resource@,
        p.action@ == action@,
        p.conditions@.len() == 0,
{
    Permission { resource: owned(resource), action: owned(action), conditions: Vec::new() }
}

/// The administrator role.
pub fn admin_role() -> (r: Role)
    ensures
        is_admin_role(r),
{
    let permissions = vec![
        plain_permission("users", "read"),
        plain_permission("users", "update"),
        plain_permission("documents", "read"),
        plain_permission("documents", "update"),
    ];
    let r = Role {
        name: owned("admin"),
        permissions,
        constraints: RoleConstraints {
            max_duration: None,
            valid_time_windows: Vec::new(),
            required_attributes: StrMap::new(),
            location_restrictions: Vec::new(),
            concurrent_limit: Some(5),
        },
        hierarchy_level: 0,
    };
    assert(grants(r) =~= seq![
        ("users"@, "read"@),
        ("users"@, "update"@),
        ("documents"@, "read"@),
        ("documents"@, "update"@),
    ]);
    r
}

/// The plain user role, held within `windows`.
pub fn user_role(windows: Vec<TimeWindow>) -> (r: Role)
    ensures
        is_user_role(r, windows@),
{
    let mut conditions: Vec<String> = Vec::new();
    conditions.push(owned("ownership_required"));
    let read = Permission { resource: owned("documents"), action: owned("read"), conditions };
    let permissions = vec![read];
    let r = Role {
        name: owned("user"),
        permissions,
        constraints: RoleConstraints {
            max_duration: Some(USER_ROLE_MAX_DURATION),
            valid_time_windows: windows,
            required_attributes: StrMap::new(),
            location_restrictions: Vec::new(),
            concurrent_limit: Some(3),
        },
        hierarchy_level: 1,
    };
    assert(grants(r) =~= seq![("documents"@, "read"@)]);
    assert(strs(r.permissions@[0].conditions@) =~= seq!["ownership_required"@]);
    r
}

/// Business hours: Monday to Friday, 09:00 to 17:00 UTC, with no exceptions.
pub fn business_hours() -> (w: TimeWindow)
    ensures
        w.days_of_week@ == seq![Weekday::Mon, Weekday::Tue, Weekday::Wed, Weekday::Thu, Weekday::Fri],
        w.start_time == 32_400_000_000_000,
        w.end_time == 61_200_000_000_000,
        w.timezone@ == "UTC"@,
        w.exceptions@.len() == 0,
{
    let days = vec![Weekday::Mon, Weekday::Tue, Weekday::Wed, Weekday::Thu, Weekday::Fri];
    TimeWindow {
        days_of_week: days,
        start_time: 32_400_000_000_000,
        end_time: 61_200_000_000_000,
        timezone: owned("UTC"),
        exceptions: Vec::new(),
    }
}

/// An attribute matcher against a text.
fn text_match(name: &str, operator: Operator, value: &str) -> (m: AttributeMatcher)
    ensures
        text_matcher(m, name@, operator, value@),
{
    AttributeMatcher { name: owned(name), operator, value: AttributeValue::String(owned(value)) }
}

/// An attribute matcher against a flag.
fn flag_match(name: &str, operator: Operator, value: bool) -> (m: AttributeMatcher)
    ensures
        flag_matcher(m, name@, operator, value),
{
    AttributeMatcher { name: owned(name), operator, value: AttributeValue::Boolean(value) }
}

/// The role-based engine with the administrator and user roles, the user role held
/// within business hours.
pub fn default_rbac_engine() -> (r: RbacEngine)
    ensures
        r.roles.lookup("admin"@) matches Some(a) && is_admin_role(a),
        r.roles.lookup("user"@) matches Some(u) && is_user_role(u, u.constraints.valid_time_windows@)
            && u.constraints.valid_time_windows@.len() == 1,
        forall|k: Seq<char>| #[trigger] r.roles.lookup(k) is Some <==> (k == "admin"@ || k == "user"@),
        r.user_roles.pairs().len() == 0,
        r.role_hierarchy.pairs().len() == 0,
        r.delegations@.len() == 0,
        r.active_sessions.pairs().len() == 0,
{
    let mut rbac_engine = RbacEngine::new();
    rbac_engine.add_role(admin_role());
    let windows = vec![business_hours()];
    rbac_engine.add_role(user_role(windows));
    proof {
        reveal_strlit("admin");
        reveal_strlit("user");
        assert("admin"@.len() != "user"@.len());
    }
    rbac_engine
}

/// The policy engine with the default roles and policies.
pub fn setup_hybrid_engine() -> (r: HybridPolicyEngine)
    ensures
        default_policies(r.policies()),
        r.rbac().roles.lookup("admin"@) matches Some(a) && is_admin_role(a),
        r.rbac().roles.lookup("user"@) matches Some(u) && is_user_role(u, u.constraints.valid_time_windows@),
        forall|k: Seq<char>| #[trigger] r.rbac().roles.lookup(k) is Some <==> (k == "admin"@ || k == "user"@),
        r.rbac().user_roles.pairs().len() == 0,
        r.rbac().delegations@.len() == 0,
{
    let mut hybrid_engine = HybridPolicyEngine::new(default_rbac_engine());
    hybrid_engine.add_policy(
        PolicyType::Rbac(
            RbacPolicy {
                id: owned("admin-users-access"),
                required_role: owned("admin"),
                resource: owned("users"),
                action: owned("read"),
            },
        ),
    );
    hybrid_engine.add_policy(
        PolicyType::Abac(
            AbacPolicy {
                id: owned("owner-read-documents"),
                effect: Effect::Permit,
                target: Target {
                    subject: None,
                    resource: Some(text_match("type_name", Operator::Equals, "documents")),
                    action: Some(text_match("name", Operator::Equals, "read")),
                    environment: None,
                },
                condition: Some(Condition::Attribute(flag_match("owner", Operator::IsOwner, true))),
            },
        ),
    );
    let mut user_only: Vec<String> = Vec::new();
    user_only.push(owned("user"));
    let conditions = vec![
        Condition::Attribute(flag_match("owner", Operator::IsOwner, true)),
        Condition::Attribute(text_match("current_time", Operator::InTimeWindow, "BUSINESS_HOURS")),
    ];
    hybrid_engine.add_policy(
        PolicyType::Hybrid(
            HybridPolicy {
                id: owned("user-own-docs-business-hours"),
                rbac_requirement: HybridRequirement::AnyRole(user_only),
                abac_conditions: conditions,
                combination_logic: CombinationLogic::RbacAndAbac,
            },
        ),
    );
    hybrid_engine.add_policy(
        PolicyType::Abac(
            AbacPolicy {
                id: owned("emergency-access"),
                effect: Effect::Permit,
                target: Target {
                    subject: None,
                    resource: None,
                    action: None,
                    environment: Some(flag_match("emergency_mode", Operator::Equals, true)),
                },
                condition: Some(Condition::Attribute(text_match("current_time", Operator::InTimeWindow, "EMERGENCY"))),
            },
        ),
    );
    proof {
        let ps = hybrid_engine.policies();
        if let PolicyType::Hybrid(h) = ps[2] {
            if let HybridRequirement::AnyRole(roles) = h.rbac_requirement {
                assert(strs(roles@) =~= seq!["user"@]);
            }
        }
    }
    hybrid_engine
}

/// Under the default policies, a subject without the user role is refused every
/// request: the business-hours policy denies it, and a denial overrides.
pub proof fn lemma_default_refuses_non_users(
    engine: HybridPolicyEngine,
    s: Subject,
    r: Resource,
    a: Action,
    e: Environment,
    now: int,
)
    requires
        default_policies(engine.policies()),
        !strs(s.roles@).contains("user"@),
    ensures
        engine.decide(s, r, a, e, now) == Decision::Deny,
{
    let h = engine.policies()[2]->Hybrid_0;
    let roles = h.rbac_requirement->AnyRole_0;
    assert(strs(roles@) == seq!["user"@]);
    assert forall|i: int| 0 <= i < roles@.len() implies !lists(strs(s.roles@), (#[trigger] roles@[i])@) by {
        assert(roles@[i]@ == strs(roles@)[i]);
    }
    assert(!engine.hybrid_requirement_holds(h.rbac_requirement, s, now));
    lemma_deny_overrides(engine, 2, s, r, a, e, now);
}

/// Under the default policies, reading users takes the administrator role: anyone
/// else is refused.
pub proof fn lemma_default_users_need_admin(
    engine: HybridPolicyEngine,
    s: Subject,
    r: Resource,
    a: Action,
    e: Environment,
    now: int,
)
    requires
        default_policies(engine.policies()),
        !strs(s.roles@).contains("admin"@),
        r.resource_type@ == "users"@,
        a.name@ == "read"@,
    ensures
        engine.decide(s, r, a, e, now) == Decision::Deny,
{
    lemma_deny_overrides(engine, 0, s, r, a, e, now);
}

/// Under the default policies, a user reading a document that is theirs during
/// business hours (Monday to Friday, 09:00 to 17:00 UTC) is permitted, unless it is a
/// request that only administrators may make (reading users).
pub proof fn lemma_default_lets_owners_in(
    engine: HybridPolicyEngine,
    s: Subject,
    r: Resource,
    a: Action,
    e: Environment,
    now: int,
)
    requires
        default_policies(engine.policies()),
        strs(s.roles@).contains("user"@),
        r.owner matches Some(o) && o@ == s.id@,
        weekday_index(evaluation_time(e, now)) <= 4,
        9 * NANOS_PER_HOUR <= time_of_day(evaluation_time(e, now)) <= 17 * NANOS_PER_HOUR,
        !(r.resource_type@ == "users"@ && a.name@ == "read"@ && !strs(s.roles@).contains("admin"@)),
    ensures
        engine.decide(s, r, a, e, now) == Decision::Permit,
{
    reveal_strlit("BUSINESS_HOURS");
    reveal_strlit("EMERGENCY");
    let ps = engine.policies();
    let ds = engine.decisions(s, r, a, e, now);
    assert(ds.len() == 4);
    let h = ps[2]->Hybrid_0;
    let roles = h.rbac_requirement->AnyRole_0;
    assert(strs(roles@) == seq!["user"@]);
    assert(strs(roles@).len() == 1);
    assert(roles@.len() == 1);
    assert(roles@[0]@ == strs(roles@)[0]);
    assert(lists(strs(s.roles@), roles@[0]@));
    assert(engine.hybrid_requirement_holds(h.rbac_requirement, s, now));
    let m1 = h.abac_conditions@[1]->Attribute_0;
    assert("BUSINESS_HOURS"@ != "EMERGENCY"@) by {
        assert("BUSINESS_HOURS"@.len() != "EMERGENCY"@.len());
    }
    assert(time_value_holds(m1.value, evaluation_time(e, now), e));
    assert(engine.condition_holds(h.abac_conditions@[1], s, r, a, e, now));
    assert(engine.condition_holds(h.abac_conditions@[0], s, r, a, e, now));
    assert(engine.all_hold(h.abac_conditions@, s, r, a, e, now));
    assert(ds[2] == Decision::Permit);
    assert(ds[0] != Decision::Deny) by {
        let p0 = ps[0]->Rbac_0;
        if r.resource_type@ == p0.resource@ && a.name@ == p0.action@ {
            assert(strs(s.roles@).contains("admin"@));
        }
    }
    assert(ds[1] != Decision::Deny);
    assert(ds[3] != Decision::Deny);
    assert(!ds.contains(Decision::Deny));
    assert(ds.contains(Decision::Permit));
}

/// A profile with no extra attributes.
fn plain_profile(first_name: &str, last_name: &str, department: &str, phone: Option<&str>) -> (p: UserProfile)
    ensures
        p.first_name@ == first_name@,
        p.last_name@ == last_name@,
        p.department matches Some(d) && d@ == department@,
        match phone {
            Some(x) => p.phone matches Some(y) && y@ == x@,
            None => p.phone is None,
        },
        p.attributes.pairs().len() == 0,
{
    UserProfile {
        first_name: owned(first_name),
        last_name: owned(last_name),
        department: Some(owned(department)),
        phone: match phone {
            Some(x) => Some(owned(x)),
            None => None,
        },
        attributes: StrMap::new(),
    }
}

/// `prefix` followed by `rest`.
fn followed_by(prefix: &str, rest: &str) -> (r: String)
    ensures
        r@ == prefix@ + rest@,
{
    let mut s = owned(prefix);
    s.append(rest);
    s
}

/// `u` is an active account named `name` with address `email`, opened by
/// `password`, holding `role` only.
pub open spec fn default_account(u: User, name: Seq<char>, email: Seq<char>, password: Seq<char>, role: Seq<char>) -> bool {
    &&& u.username@ == name
    &&& u.email@ == email
    &&& u.accepts(password)
    &&& strs(u.roles@) == seq![role]
    &&& u.is_active
}

/// The warning left when the default administrator cannot be made: the one refusal
/// that can come is a failure to hash the password.
pub open spec fn admin_warning() -> Seq<char> {
    "Warning: Could not create default admin user: "@ + "Internal error: "@ + "Failed to hash password"@
}

/// The warning left when the default user cannot be made.
pub open spec fn user_warning() -> Seq<char> {
    "Warning: Could not create default user: "@ + "Internal error: "@ + "Failed to hash password"@
}

/// The service `s` that setting up over `base` left, with `warnings`: the default
/// administrator was made under `admin_id` when `admin_made`, else its warning came;
/// the default user was made under `user_id` when `user_made`, else its warning
/// came, after the first. These are the only accounts (the user account takes the
/// administrator's place should their random ids coincide); each holds its one role,
/// assigned on top of those `base` gave its id; there are no sessions, refresh
/// tokens or reset tokens.
pub open spec fn default_setup(
    s: AuthService,
    base: RbacEngine,
    warnings: Seq<Seq<char>>,
    admin_id: Seq<char>,
    user_id: Seq<char>,
    admin_made: bool,
    user_made: bool,
) -> bool {
    let admin_kept = admin_made && !(user_made && admin_id == user_id);
    &&& warnings == (if admin_made {
        Seq::<Seq<char>>::empty()
    } else {
        seq![admin_warning()]
    }) + (if user_made {
        Seq::<Seq<char>>::empty()
    } else {
        seq![user_warning()]
    })
    &&& forall|k: Seq<char>| #[trigger] s.user_table().lookup(k) is Some <==> ((admin_kept && k == admin_id) || (
    user_made && k == user_id))
    &&& user_made ==> {
        &&& s.user_table().lookup(user_id) matches Some(u) && default_account(
            u,
            "user"@,
            "user@example.com"@,
            "User123!@#"@,
            "user"@,
        )
        &&& s.rbac().assignments_of(user_id).len() > 0
        &&& s.rbac().assignments_of(user_id).last().role_name@ == "user"@
    }
    &&& user_made && !(admin_made && admin_id == user_id) ==> {
        &&& s.rbac().assignments_of(user_id).drop_last() == base.assignments_of(user_id)
        &&& s.rbac().assignments_of(user_id).len() == base.assignments_of(user_id).len() + 1
    }
    &&& admin_kept ==> {
        &&& s.user_table().lookup(admin_id) matches Some(a) && default_account(
            a,
            "admin"@,
            "admin@example.com"@,
            "Admin123!@#"@,
            "admin"@,
        )
        &&& s.rbac().assignments_of(admin_id).drop_last() == base.assignments_of(admin_id)
        &&& s.rbac().assignments_of(admin_id).len() == base.assignments_of(admin_id).len() + 1
        &&& s.rbac().assignments_of(admin_id).last().role_name@ == "admin"@
    }
    &&& s.session_table().pairs().len() == 0
    &&& s.refresh_table().pairs().len() == 0
    &&& s.reset_table().pairs().len() == 0
}

/// The default requests hold plausible e-mail addresses and strong passwords.
proof fn lemma_default_requests_acceptable()
    ensures
        valid_email("admin@example.com"@),
        valid_email("user@example.com"@),
        strong_password("Admin123!@#"@),
        strong_password("User123!@#"@),
        "admin"@ != "user"@,
        "admin@example.com"@ != "user@example.com"@,
{
    reveal_strlit("admin@example.com");
    reveal_strlit("user@example.com");
    reveal_strlit("Admin123!@#");
    reveal_strlit("User123!@#");
    reveal_strlit("admin");
    reveal_strlit("user");
    let e1 = "admin@example.com"@;
    let e2 = "user@example.com"@;
    let p1 = "Admin123!@#"@;
    let p2 = "User123!@#"@;
    assert(is_ascii_chars(e1));
    assert(is_ascii_chars(e2));
    assert(is_ascii_chars(p1));
    assert(is_ascii_chars(p2));
    is_ascii_chars_encode_utf8(e1);
    is_ascii_chars_encode_utf8(e2);
    is_ascii_chars_encode_utf8(p1);
    is_ascii_chars_encode_utf8(p2);
    assert(e1[5] == '@' && e1[13] == '.');
    assert(e2[4] == '@' && e2[12] == '.');
    assert(upper_char(p1[0]) && lower_char(p1[1]) && numeral_char(p1[5]) && !alnum_char(p1[8]));
    assert(upper_char(p2[0]) && lower_char(p2[1]) && numeral_char(p2[4]) && !alnum_char(p2[7]));
    assert("admin"@.len() != "user"@.len());
    assert(e1.len() != e2.len());
}

/// Under unique keys, when no key but `uid` is found, every entry is stored under
/// `uid` and is the one found there.
proof fn lemma_single_key(ps: Seq<(String, User)>, uid: Seq<char>)
    requires
        unique_keys(ps),
        forall|k: Seq<char>| k != uid ==> #[trigger] lookup_in(ps, k) is None,
    ensures
        forall|j: int| 0 <= j < ps.len() ==> (#[trigger] ps[j]).0@ == uid && lookup_in(ps, uid) == Some(ps[j].1),
{
    assert forall|j: int| 0 <= j < ps.len() implies (#[trigger] ps[j]).0@ == uid && lookup_in(ps, uid) == Some(
        ps[j].1,
    ) by {
        let k = ps[j].0@;
        assert(first_at(ps, k, j));
        lemma_lookup_first(ps, k, j);
    }
}

/// The authentication service over `rbac_engine` with the default accounts: `admin`
/// (`admin@example.com`, password `Admin123!@#`, role admin) and `user`
/// (`user@example.com`, password `User123!@#`, role user). An account that cannot be
/// made leaves a warning, in order; the requests are acceptable, so only a failure
/// to hash a password can leave one.
pub fn setup_auth_service(rbac_engine: RbacEngine) -> (r: (AuthService, Vec<String>))
    ensures
        exists|admin_id: Seq<char>, user_id: Seq<char>, admin_made: bool, user_made: bool|
            #[trigger] default_setup(r.0, rbac_engine, strs(r.1@), admin_id, user_id, admin_made, user_made),
{
    proof {
        lemma_default_requests_acceptable();
    }
    let ghost base = rbac_engine;
    let mut auth_service = AuthService::new(rbac_engine);
    let ghost empty = auth_service;
    assert(keyed_by_id(empty.user_table().pairs()));
    let mut warnings: Vec<String> = Vec::new();
    let mut admin_roles: Vec<String> = Vec::new();
    admin_roles.push(owned("admin"));
    assert(strs(admin_roles@) =~= seq!["admin"@]);
    let admin_request = CreateUserRequest {
        username: owned("admin"),
        email: owned("admin@example.com"),
        password: owned("Admin123!@#"),
        roles: admin_roles,
        profile: plain_profile("Admin", "User", "IT", None),
    };
    let ghost admin_req = admin_request;
    let admin_result = auth_service.create_user(admin_request);
    let ghost (admin_id, t1) = choose|uid: Seq<char>, t: i128|
        valid_instant(t as int) && create_outcome(empty, auth_service, admin_result, admin_req, uid, t);
    let ghost admin_made = admin_result is Ok;
    assert(!taken(empty.user_table().pairs(), admin_req.username@, admin_req.email@));
    match admin_result {
        Ok(_) => {},
        Err(e) => {
            assert(e matches AuthError::InternalError(m) && m@ == "Failed to hash password"@);
            let msg = e.to_string();
            let w = followed_by("Warning: Could not create default admin user: ", msg.as_str());
            assert(w@ =~= admin_warning());
            warnings.push(w);
        },
    }
    let ghost first_warnings = strs(warnings@);
    assert(first_warnings =~= if admin_made {
        Seq::<Seq<char>>::empty()
    } else {
        seq![admin_warning()]
    });
    let ghost after_admin = auth_service;
    proof {
        assert(keyed_by_id(after_admin.user_table().pairs()));
        if admin_made {
            assert forall|k: Seq<char>| k != admin_id implies #[trigger] lookup_in(
                after_admin.user_table().pairs(),
                k,
            ) is None by {
                assert(after_admin.user_table().lookup(k) == empty.user_table().lookup(k));
            }
            lemma_single_key(after_admin.user_table().pairs(), admin_id);
        }
    }
    let mut user_roles: Vec<String> = Vec::new();
    user_roles.push(owned("user"));
    assert(strs(user_roles@) =~= seq!["user"@]);
    let user_request = CreateUserRequest {
        username: owned("user"),
        email: owned("user@example.com"),
        password: owned("User123!@#"),
        roles: user_roles,
        profile: plain_profile("John", "Doe", "Marketing", Some("+1234567890")),
    };
    let ghost user_req = user_request;
    let user_result = auth_service.create_user(user_request);
    let ghost (user_id, t2) = choose|uid: Seq<char>, t: i128|
        valid_instant(t as int) && create_outcome(after_admin, auth_service, user_result, user_req, uid, t);
    let ghost user_made = user_result is Ok;
    assert(!taken(after_admin.user_table().pairs(), user_req.username@, user_req.email@)) by {
        let ps = after_admin.user_table().pairs();
        assert forall|j: int| 0 <= j < ps.len() implies !((#[trigger] ps[j].1).username@ == user_req.username@
            || ps[j].1.email@ == user_req.email@) by {
            if admin_made {
                assert(ps[j].0@ == admin_id);
            }
        }
    }
    match user_result {
        Ok(_) => {},
        Err(e) => {
            assert(e matches AuthError::InternalError(m) && m@ == "Failed to hash password"@);
            let msg = e.to_string();
            let w = followed_by("Warning: Could not create default user: ", msg.as_str());
            assert(w@ =~= user_warning());
            warnings.push(w);
        },
    }
    proof {
        assert(strs(warnings@) =~= first_warnings + if user_made {
            Seq::<Seq<char>>::empty()
        } else {
            seq![user_warning()]
        });
        let admin_kept = admin_made && !(user_made && admin_id == user_id);
        let t = auth_service.user_table();
        assert forall|k: Seq<char>| #[trigger] t.lookup(k) is Some <==> ((admin_kept && k == admin_id) || (user_made
            && k == user_id)) by {
            assert(after_admin.user_table().lookup(k) == empty.user_table().lookup(k) || (admin_made && k
                == admin_id));
            if !(user_made && k == user_id) {
                assert(t.lookup(k) == after_admin.user_table().lookup(k));
            }
        }
        if user_made {
            let n_user = after_admin.rbac().assignments_of(user_id).len();
            assert(system_assignment(
                auth_service.rbac().assignments_of(user_id)[n_user + 0int],
                user_req.roles@[0]@,
                t2 as int,
            ));
            assert(user_req.roles@[0]@ == strs(user_req.roles@)[0]);
            assert(auth_service.rbac().assignments_of(user_id).drop_last() =~= auth_service.rbac().assignments_of(
                user_id,
            ).take(n_user as int));
            if !(admin_made && admin_id == user_id) {
                assert(after_admin.rbac().user_roles.lookup(user_id) == base.user_roles.lookup(user_id));
            }
        }
        if admin_kept {
            if user_made {
                assert(auth_service.rbac().user_roles.lookup(admin_id) == after_admin.rbac().user_roles.lookup(
                    admin_id,
                ));
            }
            assert(auth_service.rbac().assignments_of(admin_id) == after_admin.rbac().assignments_of(admin_id));
            let n_admin = base.assignments_of(admin_id).len();
            assert(system_assignment(
                after_admin.rbac().assignments_of(admin_id)[n_admin + 0int],
                admin_req.roles@[0]@,
                t1 as int,
            ));
            assert(admin_req.roles@[0]@ == strs(admin_req.roles@)[0]);
            assert(after_admin.rbac().assignments_of(admin_id).drop_last() =~= after_admin.rbac().assignments_of(
                admin_id,
            ).take(n_admin as int));
            assert(auth_service.user_table().lookup(admin_id) == after_admin.user_table().lookup(admin_id));
        }
        assert(default_setup(auth_service, base, strs(warnings@), admin_id, user_id, admin_made, user_made));
    }
    let r = (auth_service, warnings);
    assert(default_setup(r.0, base, strs(r.1@), admin_id, user_id, admin_made, user_made));
    r
}

} // verus!
