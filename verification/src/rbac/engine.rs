//! The role-based engine: roles, dynamic assignments, a role hierarchy,
//! delegations and sessions.
//!
//! Every rule that depends on the time has a form that takes the instant as an
//! argument (`..._at`); the form without it reads the clock once and uses that
//! instant throughout.
use vstd::prelude::*;

use crate::abac::attribute::Environment;
use crate::clock::{
    day_number, now, time_of_day, valid_duration, valid_instant, weekday_index, whole_seconds,
    day_of, time_of_day_of, weekday_index_of, whole_seconds_of, MAX_INSTANT, MIN_INSTANT,
};
use crate::context::AccessContext;
use crate::dict::{
    first_at, lemma_lookup_first, lemma_lookup_some, lemma_lookup_update, lookup_in,
    StrMap,
};
use crate::rbac::delegation::{DelegationConditions, RoleDelegation};
use crate::rbac::role::{AssignmentConditions, DynamicRoleAssignment, RevocationCondition, Role};
use crate::rbac::session::UserSession;
use crate::rbac::timespec::{check_time_value, evaluation_instant, evaluation_time, time_value_holds};
use crate::text::{copy_strings, i64_to_decimal, int_decimal, owned, str_eq, strs};
use crate::types::common::AttributeValue;
use crate::types::time::{copy_windows, same_windows, DateException, ExceptionType, TimeWindow};
use vstd::string::StringExecFns;

verus! {

/// Sessions end after this much inactivity: 30 minutes.
pub const SESSION_IDLE_LIMIT: i128 = 1_800_000_000_000;

/// The deepest chain of delegations allowed.
pub const MAX_DELEGATION_DEPTH: u32 = 3;

/// The verdict of the first exception of `es` for day `day` that decides: `Some(false)`
/// for a holiday, `Some(true)` for an emergency.
pub open spec fn decisive_exception(es: Seq<DateException>, day: int) -> Option<bool>
    decreases es.len(),
{
    if es.len() == 0 {
        None
    } else if es[0].date == day && es[0].exception_type == ExceptionType::Holiday {
        Some(false)
    } else if es[0].date == day && es[0].exception_type == ExceptionType::Emergency {
        Some(true)
    } else {
        decisive_exception(es.drop_first(), day)
    }
}

/// Some exception of `es` puts day `day` under maintenance.
pub open spec fn maintenance_on(es: Seq<DateException>, day: int) -> bool {
    exists|i: int|
        0 <= i < es.len() && (#[trigger] es[i]).date == day && es[i].exception_type
            == ExceptionType::Maintenance
}

/// Scanning `ws` in order, some window admits `t`: on one of its weekdays, the first
/// deciding exception of the day decides; without one, a maintenance day skips the
/// window, and otherwise the window admits `t` within its hours.
pub open spec fn windows_admit(ws: Seq<TimeWindow>, t: int) -> bool
    decreases ws.len(),
{
    if ws.len() == 0 {
        false
    } else {
        let w = ws[0];
        let day = day_number(t);
        if exists|k: int| 0 <= k < w.days_of_week@.len() && (#[trigger] w.days_of_week@[k]).index()
            == weekday_index(t) {
            match decisive_exception(w.exceptions@, day) {
                Some(b) => b,
                None => if !maintenance_on(w.exceptions@, day) && w.start_time <= time_of_day(t)
                    <= w.end_time {
                    true
                } else {
                    windows_admit(ws.drop_first(), t)
                },
            }
        } else {
            windows_admit(ws.drop_first(), t)
        }
    }
}

/// `ws` allows instant `t`: no windows means no restriction.
pub open spec fn time_allowed(ws: Seq<TimeWindow>, t: int) -> bool {
    ws.len() == 0 || windows_admit(ws, t)
}

/// An assignment is in force at `t` for a request from `location`.
pub open spec fn assignment_active(a: DynamicRoleAssignment, t: int, location: Option<Seq<char>>) -> bool {
    &&& match a.expires_at {
        Some(e) => t < e,
        None => true,
    }
    &&& time_allowed(a.conditions.time_windows@, t)
    &&& match a.conditions.location {
        Some(required) => location == Some(required@),
        None => true,
    }
}

/// The assignments of `asg` that have not expired at `now`.
pub open spec fn unexpired(asg: Seq<DynamicRoleAssignment>, now: int) -> Seq<DynamicRoleAssignment>
    decreases asg.len(),
{
    if asg.len() == 0 {
        asg
    } else if asg.last().expires_at matches Some(e) && e <= now {
        unexpired(asg.drop_last(), now)
    } else {
        unexpired(asg.drop_last(), now).push(asg.last())
    }
}

/// The assignments of `asg` of any role but `role`.
pub open spec fn without_role(asg: Seq<DynamicRoleAssignment>, role: Seq<char>) -> Seq<DynamicRoleAssignment>
    decreases asg.len(),
{
    if asg.len() == 0 {
        asg
    } else if asg.last().role_name@ == role {
        without_role(asg.drop_last(), role)
    } else {
        without_role(asg.drop_last(), role).push(asg.last())
    }
}

/// The delegations of `ds` that have not expired at `now`.
pub open spec fn live_delegations(ds: Seq<RoleDelegation>, now: int) -> Seq<RoleDelegation>
    decreases ds.len(),
{
    if ds.len() == 0 {
        ds
    } else if ds.last().expires_at > now {
        live_delegations(ds.drop_last(), now).push(ds.last())
    } else {
        live_delegations(ds.drop_last(), now)
    }
}

/// The largest delegation depth among the assignments of `asg` of role `role`
/// (of any role when `role` is empty); 0 when there is none.
pub open spec fn max_depth(asg: Seq<DynamicRoleAssignment>, role: Seq<char>) -> int
    decreases asg.len(),
{
    if asg.len() == 0 {
        0
    } else {
        let rest = max_depth(asg.drop_last(), role);
        let a = asg.last();
        if (role.len() == 0 || a.role_name@ == role) && a.delegation_depth > rest {
            a.delegation_depth as int
        } else {
            rest
        }
    }
}

/// The conditions of a plain assignment: no location, no windows, no required
/// attributes and no revocation events.
pub open spec fn unconditional(c: AssignmentConditions) -> bool {
    &&& c.location is None
    &&& c.time_windows@.len() == 0
    &&& c.required_attributes.pairs().len() == 0
    &&& c.auto_revoke_conditions@.len() == 0
}

/// A session has been idle for less than the limit at `now`.
pub open spec fn session_active_at(s: UserSession, now: int) -> bool {
    now - s.last_activity < SESSION_IDLE_LIMIT
}

/// `ss` with the first session of id `sid` marked active at `now`.
pub open spec fn touch_first(ss: Seq<UserSession>, sid: Seq<char>, now: i128) -> Seq<UserSession>
    decreases ss.len(),
{
    if ss.len() == 0 {
        ss
    } else if ss[0].session_id@ == sid {
        seq![UserSession { last_activity: now, ..ss[0] }] + ss.drop_first()
    } else {
        seq![ss[0]] + touch_first(ss.drop_first(), sid, now)
    }
}

pub proof fn lemma_touch_first_len(ss: Seq<UserSession>, sid: Seq<char>, now: i128)
    ensures
        touch_first(ss, sid, now).len() == ss.len(),
    decreases ss.len(),
{
    if ss.len() > 0 {
        lemma_touch_first_len(ss.drop_first(), sid, now);
    }
}

/// What a delegation of `role` from `delegator` to `delegatee` for `duration` at
/// `now` does, from engine `s0` to engine `s1` with answer `r`.
pub open spec fn delegation_outcome(
    s0: RbacEngine,
    s1: RbacEngine,
    r: Result<String, String>,
    delegator: &str,
    delegatee: &str,
    role: &str,
    duration: i128,
    conditions: DelegationConditions,
    now: i128,
) -> bool {
    &&& !s0.holds_role(delegator@, role@, now as int) ==> (r matches Err(msg) && msg@
        == "Delegator does not have the role"@)
    &&& s0.holds_role(delegator@, role@, now as int) && s0.delegation_depth(delegator@, role@)
        >= MAX_DELEGATION_DEPTH ==> (r matches Err(msg) && msg@ == "Maximum delegation depth exceeded"@)
    &&& r is Err ==> s1 == s0
    &&& r matches Ok(id) ==> {
        &&& s0.holds_role(delegator@, role@, now as int)
        &&& s0.delegation_depth(delegator@, role@) < MAX_DELEGATION_DEPTH
        &&& id@ == "del_"@ + int_decimal(whole_seconds(now as int))
        &&& s1.delegations@.drop_last() == s0.delegations@
        &&& {
            let d = s1.delegations@.last();
            &&& d.id@ == id@
            &&& d.delegator@ == delegator@
            &&& d.delegatee@ == delegatee@
            &&& d.role@ == role@
            &&& d.created_at == now
            &&& d.expires_at == now + duration
            &&& d.conditions.can_further_delegate == conditions.can_further_delegate
            &&& d.conditions.approval_required == conditions.approval_required
            &&& d.conditions.max_depth == conditions.max_depth
            &&& same_windows(d.conditions.time_windows@, conditions.time_windows@)
            &&& d.max_depth == MAX_DELEGATION_DEPTH
        }
        &&& s1.assignments_of(delegatee@).drop_last() == s0.assignments_of(delegatee@)
        &&& s1.assignments_of(delegatee@).len() == s0.assignments_of(delegatee@).len() + 1
        &&& {
            let a = s1.assignments_of(delegatee@).last();
            &&& a.role_name@ == role@
            &&& a.assigned_at == now
            &&& a.expires_at == Some((now + duration) as i128)
            &&& a.assigned_by@ == delegator@
            &&& a.conditions.location is None
            &&& same_windows(a.conditions.time_windows@, conditions.time_windows@)
            &&& a.conditions.required_attributes.pairs().len() == 0
            &&& a.conditions.auto_revoke_conditions@.len() == 1
            &&& a.conditions.auto_revoke_conditions@[0] == RevocationCondition::TimeExpiry(
                (now + duration) as i128,
            )
            &&& a.delegation_depth == s0.delegation_depth(delegator@, role@) + 1
        }
        &&& s1.roles == s0.roles
        &&& s1.role_hierarchy == s0.role_hierarchy
        &&& s1.active_sessions == s0.active_sessions
        &&& forall|u: Seq<char>| u != delegatee@ ==> #[trigger] s1.user_roles.lookup(u)
            == s0.user_roles.lookup(u)
    }
    &&& s0.holds_role(delegator@, role@, now as int) && s0.delegation_depth(delegator@, role@)
        < MAX_DELEGATION_DEPTH ==> r is Ok
}

/// What a delegation for `duration` that reads the clock at `now` does: it is refused
/// when it would end outside the calendar, and otherwise goes as `delegation_outcome`.
pub open spec fn delegation_at(
    s0: RbacEngine,
    s1: RbacEngine,
    r: Result<String, String>,
    delegator: &str,
    delegatee: &str,
    role: &str,
    duration: i128,
    conditions: DelegationConditions,
    now: i128,
) -> bool {
    &&& valid_instant(now as int)
    &&& if valid_instant(now + duration) {
        delegation_outcome(s0, s1, r, delegator, delegatee, role, duration, conditions, now)
    } else {
        (r matches Err(msg) && msg@ == "Delegation would outlast the calendar"@) && s1 == s0
    }
}

/// What assigning `role` to `user` on the say of `by` at `now` does: it is refused
/// unless `by` may manage the role; otherwise one assignment, made at `now` and
/// lasting `duration` when given, is appended to the user's.
pub open spec fn assignment_outcome(
    s0: RbacEngine,
    s1: RbacEngine,
    r: Result<(), String>,
    user: Seq<char>,
    role: Seq<char>,
    by: Seq<char>,
    duration: Option<i128>,
    conditions: AssignmentConditions,
    now: i128,
) -> bool {
    &&& r is Ok <==> s0.may_manage(by, role, now as int)
    &&& r matches Err(msg) ==> msg@ == "Insufficient privileges to assign role"@ && s1 == s0
    &&& r is Ok ==> {
        &&& s1.same_but_assignments_of(&s0, user)
        &&& s1.assignments_of(user).len() == s0.assignments_of(user).len() + 1
        &&& s1.assignments_of(user).drop_last() == s0.assignments_of(user)
        &&& {
            let a = s1.assignments_of(user).last();
            &&& a.role_name@ == role
            &&& a.assigned_at == now
            &&& a.expires_at == match duration {
                Some(d) => Some((now + d) as i128),
                None => None,
            }
            &&& a.assigned_by@ == by
            &&& a.conditions == conditions
            &&& a.delegation_depth == 0
        }
    }
}

/// What an assignment that reads the clock at `now` does: it is refused when it
/// would end outside the calendar, and otherwise goes as `assignment_outcome`.
pub open spec fn assignment_at(
    s0: RbacEngine,
    s1: RbacEngine,
    r: Result<(), String>,
    user: Seq<char>,
    role: Seq<char>,
    by: Seq<char>,
    duration: Option<i128>,
    conditions: AssignmentConditions,
    now: i128,
) -> bool {
    &&& valid_instant(now as int)
    &&& if duration matches Some(d) && !valid_instant(now + d) {
        (r matches Err(msg) && msg@ == "Assignment would outlast the calendar"@) && s1 == s0
    } else {
        assignment_outcome(s0, s1, r, user, role, by, duration, conditions, now)
    }
}

/// What withdrawing `role` from `user` on the say of `by` at `now` does: it is
/// refused unless `by` may manage the role; otherwise every assignment of the role
/// is dropped from the user's, and nothing else changes.
pub open spec fn revocation_outcome(
    s0: RbacEngine,
    s1: RbacEngine,
    r: Result<(), String>,
    user: Seq<char>,
    role: Seq<char>,
    by: Seq<char>,
    now: int,
) -> bool {
    &&& r is Ok <==> s0.may_manage(by, role, now)
    &&& r matches Err(msg) ==> msg@ == "Insufficient privileges to revoke role"@ && s1 == s0
    &&& r is Ok ==> {
        &&& s1.same_but_assignments_of(&s0, user)
        &&& s1.assignments_of(user) == without_role(s0.assignments_of(user), role)
    }
}

/// The exception at `i` of `es` is the first one dated `day` that does more than
/// put the day under maintenance, so it decides the day: a holiday closes it, an
/// emergency opens it.
proof fn lemma_first_deciding_exception(es: Seq<DateException>, day: int, i: int)
    requires
        0 <= i < es.len(),
        es[i].date == day,
        es[i].exception_type != ExceptionType::Maintenance,
        forall|j: int|
            0 <= j < i && (#[trigger] es[j]).date == day ==> es[j].exception_type == ExceptionType::Maintenance,
    ensures
        decisive_exception(es, day) == Some(es[i].exception_type == ExceptionType::Emergency),
    decreases i,
{
    if i > 0 {
        let rest = es.drop_first();
        assert forall|j: int|
            0 <= j < i - 1 && (#[trigger] rest[j]).date == day implies rest[j].exception_type
                == ExceptionType::Maintenance by {
            assert(rest[j] == es[j + 1]);
        }
        assert(rest[i - 1] == es[i]);
        lemma_first_deciding_exception(rest, day, i - 1);
    }
}

/// On the day of `t`, the first window of `ws` that covers the weekday of `t` is
/// decided by its first exception dated that day that is a holiday or an
/// emergency: a holiday denies the instant, whatever the window's hours and the
/// later windows; an emergency admits it.
pub proof fn lemma_dated_exception_decides(ws: Seq<TimeWindow>, t: int, w: int, k: int, i: int)
    requires
        0 <= w < ws.len(),
        forall|v: int, d: int|
            0 <= v < w && 0 <= d < ws[v].days_of_week@.len() ==> (#[trigger] ws[v].days_of_week@[d]).index()
                != weekday_index(t),
        0 <= k < ws[w].days_of_week@.len(),
        ws[w].days_of_week@[k].index() == weekday_index(t),
        0 <= i < ws[w].exceptions@.len(),
        ws[w].exceptions@[i].date == day_number(t),
        ws[w].exceptions@[i].exception_type != ExceptionType::Maintenance,
        forall|j: int|
            0 <= j < i && (#[trigger] ws[w].exceptions@[j]).date == day_number(t) ==> ws[w].exceptions@[j].exception_type
                == ExceptionType::Maintenance,
    ensures
        time_allowed(ws, t) <==> ws[w].exceptions@[i].exception_type == ExceptionType::Emergency,
        ws[w].exceptions@[i].exception_type == ExceptionType::Holiday ==> !time_allowed(ws, t),
    decreases w,
{
    if w == 0 {
        let es = ws[0].exceptions@;
        assert forall|j: int| 0 <= j < i && (#[trigger] es[j]).date == day_number(t) implies es[j].exception_type
            == ExceptionType::Maintenance by {
            assert(es[j] == ws[0].exceptions@[j]);
        }
        lemma_first_deciding_exception(es, day_number(t), i);
        assert(ws[0].days_of_week@[k].index() == weekday_index(t));
    } else {
        let rest = ws.drop_first();
        assert forall|v: int, d: int|
            0 <= v < w - 1 && 0 <= d < rest[v].days_of_week@.len() implies (#[trigger] rest[v].days_of_week@[d]).index()
                != weekday_index(t) by {
            assert(rest[v] == ws[v + 1]);
            assert(ws[v + 1].days_of_week@[d].index() != weekday_index(t));
        }
        assert(rest[w - 1] == ws[w]);
        assert forall|j: int|
            0 <= j < i && (#[trigger] rest[w - 1].exceptions@[j]).date == day_number(t) implies rest[w
                - 1].exceptions@[j].exception_type == ExceptionType::Maintenance by {
            assert(ws[w].exceptions@[j].date == day_number(t));
        }
        lemma_dated_exception_decides(rest, t, w - 1, k, i);
        assert(!exists|d: int|
            0 <= d < ws[0].days_of_week@.len() && (#[trigger] ws[0].days_of_week@[d]).index() == weekday_index(t));
    }
}

/// The delegation depth of a role is the deepest of its assignments: none of them
/// is deeper, and it is the depth of one of them unless it is 0.
pub proof fn lemma_max_depth_is_deepest(asg: Seq<DynamicRoleAssignment>, role: Seq<char>)
    ensures
        forall|i: int|
            0 <= i < asg.len() && (role.len() == 0 || (#[trigger] asg[i]).role_name@ == role) ==> asg[i].delegation_depth
                <= max_depth(asg, role),
        max_depth(asg, role) == 0 || exists|i: int|
            0 <= i < asg.len() && (role.len() == 0 || (#[trigger] asg[i]).role_name@ == role) && asg[i].delegation_depth
                == max_depth(asg, role),
    decreases asg.len(),
{
    if asg.len() > 0 {
        let rest = asg.drop_last();
        lemma_max_depth_is_deepest(rest, role);
        assert forall|i: int|
            0 <= i < asg.len() && (role.len() == 0 || (#[trigger] asg[i]).role_name@ == role) implies asg[i].delegation_depth
                <= max_depth(asg, role) by {
            if i < asg.len() - 1 {
                assert(rest[i] == asg[i]);
            }
        }
        if max_depth(asg, role) != 0 && max_depth(asg, role) == max_depth(rest, role) {
            let i = choose|i: int|
                0 <= i < rest.len() && (role.len() == 0 || (#[trigger] rest[i]).role_name@ == role) && rest[i].delegation_depth
                    == max_depth(rest, role);
            assert(asg[i] == rest[i]);
        }
        if max_depth(asg, role) != max_depth(rest, role) {
            assert(asg[asg.len() - 1] == asg.last());
        }
    }
}

/// A user holding an assignment of a role at the deepest delegation depth allowed
/// (or deeper) cannot delegate that role.
pub proof fn lemma_deep_delegator_refused(
    s0: RbacEngine,
    s1: RbacEngine,
    r: Result<String, String>,
    delegator: &str,
    delegatee: &str,
    role: &str,
    duration: i128,
    conditions: DelegationConditions,
    now: i128,
    i: int,
)
    requires
        delegation_outcome(s0, s1, r, delegator, delegatee, role, duration, conditions, now),
        0 <= i < s0.assignments_of(delegator@).len(),
        s0.assignments_of(delegator@)[i].role_name@ == role@,
        s0.assignments_of(delegator@)[i].delegation_depth >= MAX_DELEGATION_DEPTH,
    ensures
        r is Err,
        s1 == s0,
{
    lemma_max_depth_is_deepest(s0.assignments_of(delegator@), role@);
    assert(s0.delegation_depth(delegator@, role@) >= MAX_DELEGATION_DEPTH);
}

/// The role-based engine.
#[derive(Clone)]
pub struct RbacEngine {
    pub roles: StrMap<Role>,
    /// The assignments of each user, in the order they were made.
    pub user_roles: StrMap<Vec<DynamicRoleAssignment>>,
    /// For a role, the roles that holding it also grants (one level).
    pub role_hierarchy: StrMap<Vec<String>>,
    pub delegations: Vec<RoleDelegation>,
    /// The sessions of each user.
    pub active_sessions: StrMap<Vec<UserSession>>,
}

impl RbacEngine {
    /// The assignments of `user`, oldest first.
    pub open spec fn assignments_of(&self, user: Seq<char>) -> Seq<DynamicRoleAssignment> {
        match self.user_roles.lookup(user) {
            Some(v) => v@,
            None => Seq::empty(),
        }
    }

    /// The sessions of `user`, oldest first.
    pub open spec fn sessions_of(&self, user: Seq<char>) -> Seq<UserSession> {
        match self.active_sessions.lookup(user) {
            Some(v) => v@,
            None => Seq::empty(),
        }
    }

    /// The roles that holding `role` also grants.
    pub open spec fn inherited(&self, role: Seq<char>) -> Seq<Seq<char>> {
        match self.role_hierarchy.lookup(role) {
            Some(v) => strs(v@),
            None => Seq::empty(),
        }
    }

    /// The roles an assignment grants: its own role, then the roles it inherits.
    pub open spec fn granted(&self, a: DynamicRoleAssignment) -> Seq<Seq<char>> {
        seq![a.role_name@] + self.inherited(a.role_name@)
    }

    /// The roles the assignments of `asg` grant at `t` for a request from `location`,
    /// in assignment order.
    pub open spec fn active_roles_in(
        &self,
        asg: Seq<DynamicRoleAssignment>,
        t: int,
        location: Option<Seq<char>>,
    ) -> Seq<Seq<char>>
        decreases asg.len(),
    {
        if asg.len() == 0 {
            Seq::empty()
        } else {
            self.active_roles_in(asg.drop_last(), t, location) + if assignment_active(
                asg.last(),
                t,
                location,
            ) {
                self.granted(asg.last())
            } else {
                Seq::empty()
            }
        }
    }

    /// The roles `user` holds at `t` for a request from `location`.
    pub open spec fn active_roles(&self, user: Seq<char>, t: int, location: Option<Seq<char>>) -> Seq<Seq<char>> {
        self.active_roles_in(self.assignments_of(user), t, location)
    }

    /// `user` holds `role` at `t`, wherever the request comes from.
    pub open spec fn holds_role(&self, user: Seq<char>, role: Seq<char>, t: int) -> bool {
        self.active_roles(user, t, None).contains(role)
    }

    /// Role `role` is defined and has a permission for `action` on `resource`.
    pub open spec fn role_grants(&self, role: Seq<char>, resource: Seq<char>, action: Seq<char>) -> bool {
        match self.roles.lookup(role) {
            Some(r) => exists|j: int|
                0 <= j < r.permissions@.len() && (#[trigger] r.permissions@[j]).resource@ == resource
                    && r.permissions@[j].action@ == action,
            None => false,
        }
    }

    /// Some role `user` holds at `t` from `location` grants `action` on `resource`.
    pub open spec fn permitted(
        &self,
        user: Seq<char>,
        resource: Seq<char>,
        action: Seq<char>,
        t: int,
        location: Option<Seq<char>>,
    ) -> bool {
        let roles = self.active_roles(user, t, location);
        exists|i: int| 0 <= i < roles.len() && self.role_grants(#[trigger] roles[i], resource, action)
    }

    /// `assigner` may assign or revoke `role` at `t`: as an `admin`, or as a manager of
    /// that role (`<role>-manager`).
    pub open spec fn may_manage(&self, assigner: Seq<char>, role: Seq<char>, t: int) -> bool {
        self.holds_role(assigner, "admin"@, t) || self.holds_role(assigner, role + "-manager"@, t)
    }

    /// The delegation depth of `user`'s assignments of `role`.
    pub open spec fn delegation_depth(&self, user: Seq<char>, role: Seq<char>) -> int {
        max_depth(self.assignments_of(user), role)
    }

    /// A delegation of `role` to `user` is in force at `now`.
    pub open spec fn delegated(&self, user: Seq<char>, role: Seq<char>, now: int) -> bool {
        exists|i: int|
            0 <= i < self.delegations@.len() && (#[trigger] self.delegations@[i]).delegatee@ == user
                && self.delegations@[i].role@ == role && self.delegations@[i].expires_at > now
    }

    /// The location a context names in its environment.
    pub open spec fn context_location(ctx: AccessContext) -> Option<Seq<char>> {
        match ctx.environment.attributes.lookup("location"@) {
            Some(AttributeValue::String(l)) => Some(l@),
            _ => None,
        }
    }

    /// `self` and `other` differ at most in the assignments of `user`.
    pub open spec fn same_but_assignments_of(&self, other: &RbacEngine, user: Seq<char>) -> bool {
        &&& self.roles == other.roles
        &&& self.role_hierarchy == other.role_hierarchy
        &&& self.delegations == other.delegations
        &&& self.active_sessions == other.active_sessions
        &&& forall|u: Seq<char>| u != user ==> #[trigger] self.user_roles.lookup(u) == other.user_roles.lookup(u)
    }

    /// An engine with no roles, assignments, hierarchy, delegations or sessions.
    pub fn new() -> (r: RbacEngine)
        ensures
            r.roles.pairs().len() == 0,
            r.user_roles.pairs().len() == 0,
            r.role_hierarchy.pairs().len() == 0,
            r.delegations@.len() == 0,
            r.active_sessions.pairs().len() == 0,
    {
        RbacEngine {
            roles: StrMap::new(),
            user_roles: StrMap::new(),
            role_hierarchy: StrMap::new(),
            delegations: Vec::new(),
            active_sessions: StrMap::new(),
        }
    }

    /// Defines a role under its name, replacing any role of that name.
    pub fn add_role(&mut self, role: Role)
        ensures
            forall|k: Seq<char>| #[trigger] final(self).roles.lookup(k) == if k == role.name@ {
                Some(role)
            } else {
                old(self).roles.lookup(k)
            },
            final(self).user_roles == old(self).user_roles,
            final(self).role_hierarchy == old(self).role_hierarchy,
            final(self).delegations == old(self).delegations,
            final(self).active_sessions == old(self).active_sessions,
    {
        let name = role.name.clone();
        self.roles.insert(name, role);
    }

    /// Sets the roles that holding `parent_role` also grants.
    pub fn set_role_hierarchy(&mut self, parent_role: &str, child_roles: Vec<String>)
        ensures
            forall|k: Seq<char>| #[trigger] final(self).role_hierarchy.lookup(k) == if k == parent_role@ {
                Some(child_roles)
            } else {
                old(self).role_hierarchy.lookup(k)
            },
            final(self).roles == old(self).roles,
            final(self).user_roles == old(self).user_roles,
            final(self).delegations == old(self).delegations,
            final(self).active_sessions == old(self).active_sessions,
    {
        self.role_hierarchy.insert(owned(parent_role), child_roles);
    }

    /// Appends an assignment to the assignments of `user`.
    fn push_assignment(&mut self, user: &str, a: DynamicRoleAssignment)
        ensures
            final(self).assignments_of(user@) == old(self).assignments_of(user@).push(a),
            final(self).user_roles.lookup(user@) is Some,
            final(self).same_but_assignments_of(old(self), user@),
    {
        match self.user_roles.find(user) {
            Some(i) => {
                proof {
                    lemma_lookup_first(self.user_roles.pairs(), user@, i as int);
                }
                let ghost before = self.user_roles.pairs();
                let mut v = self.user_roles.replace_at(i, Vec::new());
                v.push(a);
                let ghost key = before[i as int].0;
                self.user_roles.replace_at(i, v);
                proof {
                    assert(self.user_roles.pairs() =~= before.update(i as int, (key, v)));
                    lemma_lookup_update(before, user@, i as int, key, v);
                }
            },
            None => {
                let mut v: Vec<DynamicRoleAssignment> = Vec::new();
                v.push(a);
                proof {
                    lemma_lookup_some(self.user_roles.pairs(), user@);
                }
                self.user_roles.insert(owned(user), v);
            },
        }
    }

    /// Assigns a role on the say of `assigned_by`, who must hold `admin` or
    /// `<role>-manager`; the assignment lasts `duration` (nanoseconds) from `now` when
    /// given.
    pub fn assign_role_dynamic_at(
        &mut self,
        user_id: &str,
        role_name: &str,
        assigned_by: &str,
        duration: Option<i128>,
        conditions: AssignmentConditions,
        now: i128,
    ) -> (r: Result<(), String>)
        requires
            valid_instant(now as int),
            duration matches Some(d) ==> valid_duration(d as int) && valid_instant(now + d),
        ensures
            assignment_outcome(
                *old(self),
                *final(self),
                r,
                user_id@,
                role_name@,
                assigned_by@,
                duration,
                conditions,
                now,
            ),
    {
        if !self.can_assign_role_at(assigned_by, role_name, now) {
            return Err(owned("Insufficient privileges to assign role"));
        }
        let expires_at = match duration {
            Some(d) => Some(now + d),
            None => None,
        };
        let assignment = DynamicRoleAssignment {
            role_name: owned(role_name),
            assigned_at: now,
            expires_at,
            assigned_by: owned(assigned_by),
            conditions,
            delegation_depth: 0,
        };
        self.push_assignment(user_id, assignment);
        assert(self.assignments_of(user_id@).drop_last() =~= old(self).assignments_of(user_id@));
        Ok(())
    }

    /// Assigns a role on the say of `assigned_by`, from now on.
    pub fn assign_role_dynamic(
        &mut self,
        user_id: &str,
        role_name: &str,
        assigned_by: &str,
        duration: Option<i128>,
        conditions: AssignmentConditions,
    ) -> (r: Result<(), String>)
        requires
            duration matches Some(d) ==> valid_duration(d as int),
        ensures
            exists|t: i128|
                #[trigger] assignment_at(
                    *old(self),
                    *final(self),
                    r,
                    user_id@,
                    role_name@,
                    assigned_by@,
                    duration,
                    conditions,
                    t,
                ),
    {
        let t = now();
        if let Some(d) = duration {
            if !(MIN_INSTANT - d <= t && t <= MAX_INSTANT - d) {
                let r = Err(owned("Assignment would outlast the calendar"));
                assert(assignment_at(
                    *old(self),
                    *self,
                    r,
                    user_id@,
                    role_name@,
                    assigned_by@,
                    duration,
                    conditions,
                    t,
                ));
                return r;
            }
        }
        let ghost cs = conditions;
        let r = self.assign_role_dynamic_at(user_id, role_name, assigned_by, duration, conditions, t);
        assert(assignment_at(*old(self), *self, r, user_id@, role_name@, assigned_by@, duration, cs, t));
        r
    }

    /// Assigns a role with no expiry and no conditions, on behalf of `system`.
    pub fn assign_role_to_user_at(&mut self, user_id: &str, role_name: &str, now: i128)
        ensures
            final(self).same_but_assignments_of(old(self), user_id@),
            final(self).assignments_of(user_id@).drop_last() == old(self).assignments_of(user_id@),
            final(self).assignments_of(user_id@).len() == old(self).assignments_of(user_id@).len() + 1,
            ({
                let a = final(self).assignments_of(user_id@).last();
                &&& a.role_name@ == role_name@
                &&& a.assigned_at == now
                &&& a.expires_at is None
                &&& a.assigned_by@ == "system"@
                &&& unconditional(a.conditions)
                &&& a.delegation_depth == 0
            }),
    {
        let conditions = AssignmentConditions {
            location: None,
            time_windows: Vec::new(),
            required_attributes: StrMap::new(),
            auto_revoke_conditions: Vec::new(),
        };
        let assignment = DynamicRoleAssignment {
            role_name: owned(role_name),
            assigned_at: now,
            expires_at: None,
            assigned_by: owned("system"),
            conditions,
            delegation_depth: 0,
        };
        self.push_assignment(user_id, assignment);
        assert(self.assignments_of(user_id@).drop_last() =~= old(self).assignments_of(user_id@));
    }

    /// Assigns a role with no expiry and no conditions, on behalf of `system`.
    pub fn assign_role_to_user(&mut self, user_id: &str, role_name: &str)
        ensures
            final(self).same_but_assignments_of(old(self), user_id@),
            final(self).assignments_of(user_id@).drop_last() == old(self).assignments_of(user_id@),
            ({
                let a = final(self).assignments_of(user_id@).last();
                &&& a.role_name@ == role_name@
                &&& a.expires_at is None
                &&& a.assigned_by@ == "system"@
                &&& unconditional(a.conditions)
                &&& a.delegation_depth == 0
            }),
    {
        let t = now();
        self.assign_role_to_user_at(user_id, role_name, t);
    }

    /// Passes `role` from `delegator` to `delegatee` for `duration` from `now`.
    ///
    /// The delegator must hold the role, and the depth of its own assignments of
    /// the role must stay below the limit. The delegation is recorded under the id
    /// `del_<seconds since the epoch>`, and the delegatee gets an assignment one
    /// level deeper that expires with the delegation and keeps its time windows.
    pub fn delegate_role_at(
        &mut self,
        delegator: &str,
        delegatee: &str,
        role: &str,
        duration: i128,
        conditions: DelegationConditions,
        now: i128,
    ) -> (r: Result<String, String>)
        requires
            valid_instant(now as int),
            valid_duration(duration as int),
            valid_instant(now + duration),
        ensures
            delegation_outcome(*old(self), *final(self), r, delegator, delegatee, role, duration, conditions, now),
    {
        if !self.has_active_role_at(delegator, role, now) {
            return Err(owned("Delegator does not have the role"));
        }
        let current_depth = self.get_delegation_depth(delegator, role);
        if current_depth >= MAX_DELEGATION_DEPTH {
            return Err(owned("Maximum delegation depth exceeded"));
        }
        let secs = whole_seconds_of(now);
        assert(-9_223_372_036_854_775_808 <= secs <= 9_223_372_036_854_775_807) by (nonlinear_arith)
            requires
                secs == (now as int) / 1_000_000_000int,
                MIN_INSTANT <= now <= MAX_INSTANT,
        ;
        let mut delegation_id = owned("del_");
        let digits = i64_to_decimal(secs as i64);
        delegation_id.append(digits.as_str());
        let expires = now + duration;
        let assignment_windows = copy_windows(&conditions.time_windows);
        let delegation = RoleDelegation {
            id: delegation_id.clone(),
            delegator: owned(delegator),
            delegatee: owned(delegatee),
            role: owned(role),
            created_at: now,
            expires_at: expires,
            conditions: DelegationConditions {
                can_further_delegate: conditions.can_further_delegate,
                restricted_permissions: conditions.restricted_permissions,
                time_windows: conditions.time_windows,
                approval_required: conditions.approval_required,
                max_depth: conditions.max_depth,
            },
            max_depth: MAX_DELEGATION_DEPTH,
        };
        self.delegations.push(delegation);
        let mut revocations: Vec<RevocationCondition> = Vec::new();
        revocations.push(RevocationCondition::TimeExpiry(expires));
        let assignment = DynamicRoleAssignment {
            role_name: owned(role),
            assigned_at: now,
            expires_at: Some(expires),
            assigned_by: owned(delegator),
            conditions: AssignmentConditions {
                location: None,
                time_windows: assignment_windows,
                required_attributes: StrMap::new(),
                auto_revoke_conditions: revocations,
            },
            delegation_depth: current_depth + 1,
        };
        proof {
            let w = conditions.time_windows@;
            assert(same_windows(w, w));
        }
        self.push_assignment(delegatee, assignment);
        assert(self.assignments_of(delegatee@).drop_last() =~= old(self).assignments_of(delegatee@));
        assert(self.delegations@.drop_last() =~= old(self).delegations@);
        Ok(delegation_id)
    }

    /// Passes `role` from `delegator` to `delegatee` for `duration` from now.
    pub fn delegate_role(
        &mut self,
        delegator: &str,
        delegatee: &str,
        role: &str,
        duration: i128,
        conditions: DelegationConditions,
    ) -> (r: Result<String, String>)
        requires
            valid_duration(duration as int),
        ensures
            exists|t: i128|
                #[trigger] delegation_at(*old(self), *final(self), r, delegator, delegatee, role, duration, conditions, t),
    {
        let t = now();
        if !(t <= MAX_INSTANT - duration && MIN_INSTANT - duration <= t) {
            let r = Err(owned("Delegation would outlast the calendar"));
            assert(!valid_instant(t + duration));
            assert(delegation_at(*old(self), *self, r, delegator, delegatee, role, duration, conditions, t));
            return r;
        }
        let ghost cs = conditions;
        let r = self.delegate_role_at(delegator, delegatee, role, duration, conditions, t);
        assert(delegation_at(*old(self), *self, r, delegator, delegatee, role, duration, cs, t));
        r
    }

    /// Withdraws every assignment of `role_name` from `user_id`, on the say of
    /// `revoked_by`, who must hold `admin` or `<role>-manager`.
    pub fn revoke_role_at(&mut self, user_id: &str, role_name: &str, revoked_by: &str, now: i128) -> (r: Result<(), String>)
        ensures
            revocation_outcome(*old(self), *final(self), r, user_id@, role_name@, revoked_by@, now as int),
    {
        if !self.can_assign_role_at(revoked_by, role_name, now) {
            return Err(owned("Insufficient privileges to revoke role"));
        }
        match self.user_roles.find(user_id) {
            Some(i) => {
                proof {
                    lemma_lookup_first(self.user_roles.pairs(), user_id@, i as int);
                }
                let ghost before = self.user_roles.pairs();
                let v = self.user_roles.replace_at(i, Vec::new());
                let kept = retain_other_roles(v, role_name);
                let ghost key = before[i as int].0;
                self.user_roles.replace_at(i, kept);
                proof {
                    assert(self.user_roles.pairs() =~= before.update(i as int, (key, kept)));
                    lemma_lookup_update(before, user_id@, i as int, key, kept);
                }
            },
            None => {
                proof {
                    crate::dict::lemma_lookup_absent(self.user_roles.pairs(), user_id@);
                }
            },
        }
        Ok(())
    }

    /// Withdraws every assignment of `role_name` from `user_id`, on the say of
    /// `revoked_by`, judged now.
    pub fn revoke_role(&mut self, user_id: &str, role_name: &str, revoked_by: &str) -> (r: Result<(), String>)
        ensures
            exists|t: int|
                valid_instant(t) && #[trigger] revocation_outcome(
                    *old(self),
                    *final(self),
                    r,
                    user_id@,
                    role_name@,
                    revoked_by@,
                    t,
                ),
    {
        let t = now();
        let r = self.revoke_role_at(user_id, role_name, revoked_by, t);
        assert(revocation_outcome(*old(self), *self, r, user_id@, role_name@, revoked_by@, t as int));
        r
    }

    /// Drops the assignments and delegations that have expired at `now`.
    pub fn cleanup_expired_assignments_at(&mut self, now: i128)
        ensures
            final(self).user_roles.keys() == old(self).user_roles.keys(),
            forall|i: int| 0 <= i < final(self).user_roles.pairs().len() ==> (#[trigger] final(self).user_roles.pairs()[i]).1@ == unexpired(old(self).user_roles.pairs()[i].1@, now as int),
            final(self).delegations@ == live_delegations(old(self).delegations@, now as int),
            final(self).roles == old(self).roles,
            final(self).role_hierarchy == old(self).role_hierarchy,
            final(self).active_sessions == old(self).active_sessions,
    {
        let n: usize = self.user_roles.len();
        let mut i: usize = 0;
        while i < n
            invariant
                n == old(self).user_roles.pairs().len(),
                i <= n,
                self.user_roles.pairs().len() == n,
                self.user_roles.keys() == old(self).user_roles.keys(),
                forall|k: int| 0 <= k < i ==> (#[trigger] self.user_roles.pairs()[k]).1@ == unexpired(
                    old(self).user_roles.pairs()[k].1@,
                    now as int,
                ),
                forall|k: int| i <= k < n ==> (#[trigger] self.user_roles.pairs()[k]).1 == old(self).user_roles.pairs()[k].1,
                self.roles == old(self).roles,
                self.role_hierarchy == old(self).role_hierarchy,
                self.active_sessions == old(self).active_sessions,
                self.delegations == old(self).delegations,
            decreases n - i,
        {
            let ghost before = self.user_roles.pairs();
            let v = self.user_roles.replace_at(i, Vec::new());
            let kept = retain_unexpired(v, now);
            self.user_roles.replace_at(i, kept);
            proof {
                assert(self.user_roles.pairs() =~= before.update(i as int, (before[i as int].0, kept)));
                assert(self.user_roles.keys() =~= old(self).user_roles.keys());
            }
            i = i + 1;
        }
        let mut old_delegations: Vec<RoleDelegation> = Vec::new();
        std::mem::swap(&mut old_delegations, &mut self.delegations);
        self.delegations = retain_live_delegations(old_delegations, now);
    }

    /// Drops the assignments and delegations that have expired now.
    pub fn cleanup_expired_assignments(&mut self)
        ensures
            final(self).user_roles.keys() == old(self).user_roles.keys(),
            exists|t: int|
                valid_instant(t) && final(self).delegations@ == live_delegations(old(self).delegations@, t)
                    && forall|i: int| 0 <= i < final(self).user_roles.pairs().len() ==> (#[trigger] final(self).user_roles.pairs()[i]).1@ == unexpired(old(self).user_roles.pairs()[i].1@, t),
            final(self).roles == old(self).roles,
            final(self).role_hierarchy == old(self).role_hierarchy,
            final(self).active_sessions == old(self).active_sessions,
    {
        let t = now();
        self.cleanup_expired_assignments_at(t);
    }

    /// Opens a session for `user_id` that records the roles it holds at `now` from
    /// `location`.
    pub fn start_user_session_at(
        &mut self,
        user_id: &str,
        session_id: &str,
        location: Option<String>,
        device_info: &str,
        now: i128,
    )
        ensures
            final(self).sessions_of(user_id@).drop_last() == old(self).sessions_of(user_id@),
            final(self).sessions_of(user_id@).len() == old(self).sessions_of(user_id@).len() + 1,
            ({
                let s = final(self).sessions_of(user_id@).last();
                &&& s.session_id@ == session_id@
                &&& s.started_at == now
                &&& s.last_activity == now
                &&& s.location == location
                &&& s.device_info@ == device_info@
                &&& strs(s.active_roles@) == old(self).active_roles(
                    user_id@,
                    now as int,
                    match location {
                        Some(l) => Some(l@),
                        None => None,
                    },
                )
            }),
            forall|u: Seq<char>| u != user_id@ ==> #[trigger] final(self).active_sessions.lookup(u)
                == old(self).active_sessions.lookup(u),
            final(self).roles == old(self).roles,
            final(self).user_roles == old(self).user_roles,
            final(self).role_hierarchy == old(self).role_hierarchy,
            final(self).delegations == old(self).delegations,
    {
        let active_roles = match &location {
            Some(l) => self.get_active_roles_at_time(user_id, now, Some(l.as_str())),
            None => self.get_active_roles_at_time(user_id, now, None),
        };
        let session = UserSession {
            session_id: owned(session_id),
            started_at: now,
            last_activity: now,
            location,
            device_info: owned(device_info),
            active_roles,
        };
        match self.active_sessions.find(user_id) {
            Some(i) => {
                proof {
                    lemma_lookup_first(self.active_sessions.pairs(), user_id@, i as int);
                }
                let ghost before = self.active_sessions.pairs();
                let mut v = self.active_sessions.replace_at(i, Vec::new());
                v.push(session);
                let ghost key = before[i as int].0;
                self.active_sessions.replace_at(i, v);
                proof {
                    assert(self.active_sessions.pairs() =~= before.update(i as int, (key, v)));
                    lemma_lookup_update(before, user_id@, i as int, key, v);
                }
            },
            None => {
                let mut v: Vec<UserSession> = Vec::new();
                v.push(session);
                proof {
                    lemma_lookup_some(self.active_sessions.pairs(), user_id@);
                }
                self.active_sessions.insert(owned(user_id), v);
            },
        }
        assert(self.sessions_of(user_id@).drop_last() =~= old(self).sessions_of(user_id@));
    }

    /// Opens a session for `user_id` that records the roles it holds now.
    pub fn start_user_session(
        &mut self,
        user_id: &str,
        session_id: &str,
        location: Option<String>,
        device_info: &str,
    )
        ensures
            final(self).sessions_of(user_id@).drop_last() == old(self).sessions_of(user_id@),
            ({
                let s = final(self).sessions_of(user_id@).last();
                &&& s.session_id@ == session_id@
                &&& s.location == location
                &&& s.device_info@ == device_info@
            }),
            forall|u: Seq<char>| u != user_id@ ==> #[trigger] final(self).active_sessions.lookup(u)
                == old(self).active_sessions.lookup(u),
            final(self).roles == old(self).roles,
            final(self).user_roles == old(self).user_roles,
            final(self).role_hierarchy == old(self).role_hierarchy,
            final(self).delegations == old(self).delegations,
    {
        let t = now();
        self.start_user_session_at(user_id, session_id, location, device_info, t);
    }

    /// Marks activity at `now` on the first session of `user_id` with id `session_id`.
    pub fn update_session_activity_at(&mut self, user_id: &str, session_id: &str, now: i128)
        ensures
            final(self).sessions_of(user_id@) == touch_first(old(self).sessions_of(user_id@), session_id@, now),
            forall|u: Seq<char>| u != user_id@ ==> #[trigger] final(self).active_sessions.lookup(u)
                == old(self).active_sessions.lookup(u),
            final(self).roles == old(self).roles,
            final(self).user_roles == old(self).user_roles,
            final(self).role_hierarchy == old(self).role_hierarchy,
            final(self).delegations == old(self).delegations,
    {
        match self.active_sessions.find(user_id) {
            Some(i) => {
                proof {
                    lemma_lookup_first(self.active_sessions.pairs(), user_id@, i as int);
                }
                let ghost before = self.active_sessions.pairs();
                let mut v = self.active_sessions.replace_at(i, Vec::new());
                let ghost old_v = v@;
                let mut j: usize = 0;
                assert(old_v.skip(0) =~= old_v);
                assert(old_v.take(0) + old_v =~= old_v);
                while j < v.len()
                    invariant
                        v@ == old_v,
                        j <= v@.len(),
                        touch_first(old_v, session_id@, now) == old_v.take(j as int) + touch_first(
                            old_v.skip(j as int),
                            session_id@,
                            now,
                        ),
                    ensures
                        j < v@.len() ==> v@[j as int].session_id@ == session_id@,
                    decreases v.len() - j,
                {
                    if str_eq(v[j].session_id.as_str(), session_id) {
                        break;
                    }
                    proof {
                        let rest = old_v.skip(j as int);
                        assert(rest[0] == old_v[j as int]);
                        assert(rest.drop_first() =~= old_v.skip(j + 1));
                        assert(old_v.take(j + 1) =~= old_v.take(j as int) + seq![old_v[j as int]]);
                    }
                    j = j + 1;
                }
                if j < v.len() {
                    let mut s = v.remove(j);
                    s.last_activity = now;
                    v.insert(j, s);
                    proof {
                        let rest = old_v.skip(j as int);
                        assert(rest[0] == old_v[j as int]);
                        assert(rest.drop_first() =~= old_v.skip(j + 1));
                        assert(v@ =~= old_v.take(j as int) + touch_first(rest, session_id@, now));
                    }
                } else {
                    assert(old_v.skip(j as int) =~= Seq::<UserSession>::empty());
                    assert(old_v.take(j as int) =~= old_v);
                    assert(v@ =~= touch_first(old_v, session_id@, now));
                }
                let ghost key = before[i as int].0;
                self.active_sessions.replace_at(i, v);
                proof {
                    assert(self.active_sessions.pairs() =~= before.update(i as int, (key, v)));
                    lemma_lookup_update(before, user_id@, i as int, key, v);
                }
            },
            None => {
                proof {
                    crate::dict::lemma_lookup_absent(self.active_sessions.pairs(), user_id@);
                }
            },
        }
    }

    /// Marks activity now on the first session of `user_id` with id `session_id`.
    pub fn update_session_activity(&mut self, user_id: &str, session_id: &str)
        ensures
            exists|t: i128|
                valid_instant(t as int) && final(self).sessions_of(user_id@) == #[trigger] touch_first(
                    old(self).sessions_of(user_id@),
                    session_id@,
                    t,
                ),
            final(self).sessions_of(user_id@).len() == old(self).sessions_of(user_id@).len(),
            forall|u: Seq<char>| u != user_id@ ==> #[trigger] final(self).active_sessions.lookup(u)
                == old(self).active_sessions.lookup(u),
            final(self).roles == old(self).roles,
            final(self).user_roles == old(self).user_roles,
            final(self).role_hierarchy == old(self).role_hierarchy,
            final(self).delegations == old(self).delegations,
    {
        let t = now();
        self.update_session_activity_at(user_id, session_id, t);
        proof {
            lemma_touch_first_len(old(self).sessions_of(user_id@), session_id@, t);
        }
    }

    /// A role of `user_id` at `now`, from the context's location, grants `action` on
    /// `resource`; the permissions' further conditions do not restrict it.
    pub fn has_permission_with_context_at(
        &self,
        user_id: &str,
        resource: &str,
        action: &str,
        context: &AccessContext,
        now: i128,
    ) -> (r: bool)
        ensures
            r == self.permitted(user_id@, resource@, action@, now as int, Self::context_location(*context)),
    {
        let location: Option<&str> = match context.environment.attributes.get("location") {
            Some(AttributeValue::String(l)) => Some(l.as_str()),
            _ => None,
        };
        self.has_permission_at(user_id, resource, action, now, location)
    }

    /// A role of `user_id` now, from the context's location, grants `action` on `resource`.
    pub fn has_permission_with_context(
        &self,
        user_id: &str,
        resource: &str,
        action: &str,
        context: &AccessContext,
    ) -> (r: bool)
        ensures
            exists|t: int|
                valid_instant(t) && r == self.permitted(user_id@, resource@, action@, t, Self::context_location(*context)),
    {
        let t = now();
        self.has_permission_with_context_at(user_id, resource, action, context, t)
    }

    /// A role of `user_id` at `now` from `location` grants `action` on `resource`.
    pub fn has_permission_at(
        &self,
        user_id: &str,
        resource: &str,
        action: &str,
        now: i128,
        location: Option<&str>,
    ) -> (r: bool)
        ensures
            r == self.permitted(
                user_id@,
                resource@,
                action@,
                now as int,
                match location {
                    Some(l) => Some(l@),
                    None => None,
                },
            ),
    {
        let active = self.get_active_roles_at_time(user_id, now, location);
        let ghost loc = match location {
            Some(l) => Some(l@),
            None => None,
        };
        let mut i: usize = 0;
        while i < active.len()
            invariant
                loc == match location {
                    Some(l) => Some(l@),
                    None => None,
                },
                i <= active@.len(),
                strs(active@) == self.active_roles(user_id@, now as int, loc),
                forall|k: int| 0 <= k < i ==> !self.role_grants(#[trigger] strs(active@)[k], resource@, action@),
            decreases active.len() - i,
        {
            assert(strs(active@)[i as int] == active@[i as int]@);
            if self.role_has_permission(active[i].as_str(), resource, action) {
                assert(self.role_grants(self.active_roles(user_id@, now as int, loc)[i as int], resource@, action@));
                return true;
            }
            i = i + 1;
        }
        false
    }

    /// Role `role` is defined and has a permission for `action` on `resource`.
    fn role_has_permission(&self, role: &str, resource: &str, action: &str) -> (r: bool)
        ensures
            r == self.role_grants(role@, resource@, action@),
    {
        match self.roles.get(role) {
            Some(rl) => {
                let mut j: usize = 0;
                while j < rl.permissions.len()
                    invariant
                        self.roles.lookup(role@) == Some(*rl),
                        j <= rl.permissions@.len(),
                        forall|k: int| 0 <= k < j ==> !((#[trigger] rl.permissions@[k]).resource@ == resource@
                            && rl.permissions@[k].action@ == action@),
                    decreases rl.permissions.len() - j,
                {
                    if str_eq(rl.permissions[j].resource.as_str(), resource) && str_eq(
                        rl.permissions[j].action.as_str(),
                        action,
                    ) {
                        assert(rl.permissions@[j as int].resource@ == resource@);
                        return true;
                    }
                    j = j + 1;
                }
                false
            },
            None => false,
        }
    }

    /// The roles `user_id` holds at `time` for a request from `location`: for each
    /// assignment in force, its role and then the roles that role inherits.
    pub fn get_active_roles_at_time(&self, user_id: &str, time: i128, location: Option<&str>) -> (r: Vec<String>)
        ensures
            strs(r@) == self.active_roles(
                user_id@,
                time as int,
                match location {
                    Some(l) => Some(l@),
                    None => None,
                },
            ),
    {
        let ghost loc = match location {
            Some(l) => Some(l@),
            None => None,
        };
        let mut active: Vec<String> = Vec::new();
        match self.user_roles.get(user_id) {
            Some(asg) => {
                let mut i: usize = 0;
                while i < asg.len()
                    invariant
                        loc == match location {
                            Some(l) => Some(l@),
                            None => None,
                        },
                        self.user_roles.lookup(user_id@) == Some(*asg),
                        i <= asg@.len(),
                        asg@ == self.assignments_of(user_id@),
                        strs(active@) == self.active_roles_in(asg@.take(i as int), time as int, loc),
                    decreases asg.len() - i,
                {
                    assert(asg@.take(i + 1).drop_last() =~= asg@.take(i as int));
                    assert(asg@.take(i + 1).last() == asg@[i as int]);
                    let a = &asg[i];
                    let ghost prev = strs(active@);
                    if self.is_assignment_active(a, time, location) {
                        let ghost before = active@;
                        active.push(a.role_name.clone());
                        match self.role_hierarchy.get(a.role_name.as_str()) {
                            Some(inherited) => {
                                let copies = copy_strings(inherited);
                                let mut k: usize = 0;
                                let ghost mid = active@;
                                while k < copies.len()
                                    invariant
                                        k <= copies@.len(),
                                        active@ == mid + copies@.take(k as int),
                                    decreases copies.len() - k,
                                {
                                    active.push(copies[k].clone());
                                    k = k + 1;
                                    assert(active@ =~= mid + copies@.take(k as int));
                                }
                                assert(copies@.take(copies@.len() as int) =~= copies@);
                            },
                            None => {},
                        }
                        assert(strs(active@) =~= strs(before) + self.granted(*a));
                    } else {
                        assert(strs(active@) =~= prev + Seq::<Seq<char>>::empty());
                    }
                    i = i + 1;
                }
                assert(asg@.take(asg@.len() as int) =~= asg@);
            },
            None => {},
        }
        active
    }

    /// An assignment is in force at `time` for a request from `location`.
    fn is_assignment_active(&self, a: &DynamicRoleAssignment, time: i128, location: Option<&str>) -> (r: bool)
        ensures
            r == assignment_active(
                *a,
                time as int,
                match location {
                    Some(l) => Some(l@),
                    None => None,
                },
            ),
    {
        match a.expires_at {
            Some(e) => {
                if e <= time {
                    return false;
                }
            },
            None => {},
        }
        if !is_time_allowed(&a.conditions.time_windows, time) {
            return false;
        }
        match &a.conditions.location {
            Some(required) => match location {
                Some(l) => str_eq(l, required.as_str()),
                None => false,
            },
            None => true,
        }
    }

    /// `assigner` may assign or revoke `role_name` at `now`.
    fn can_assign_role_at(&self, assigner: &str, role_name: &str, now: i128) -> (r: bool)
        ensures
            r == self.may_manage(assigner@, role_name@, now as int),
    {
        if self.has_active_role_at(assigner, "admin", now) {
            return true;
        }
        let mut manager = owned(role_name);
        manager.append("-manager");
        self.has_active_role_at(assigner, manager.as_str(), now)
    }

    /// `user_id` holds `role_name` at `now`, wherever the request comes from.
    fn has_active_role_at(&self, user_id: &str, role_name: &str, now: i128) -> (r: bool)
        ensures
            r == self.holds_role(user_id@, role_name@, now as int),
    {
        let roles = self.get_active_roles_at_time(user_id, now, None);
        let mut i: usize = 0;
        while i < roles.len()
            invariant
                i <= roles@.len(),
                strs(roles@) == self.active_roles(user_id@, now as int, None),
                forall|k: int| 0 <= k < i ==> strs(roles@)[k] != role_name@,
            decreases roles.len() - i,
        {
            assert(strs(roles@)[i as int] == roles@[i as int]@);
            if str_eq(roles[i].as_str(), role_name) {
                return true;
            }
            i = i + 1;
        }
        false
    }

    /// The largest delegation depth among `user_id`'s assignments of `role`.
    fn get_delegation_depth(&self, user_id: &str, role: &str) -> (r: u32)
        ensures
            r == self.delegation_depth(user_id@, role@),
    {
        match self.user_roles.get(user_id) {
            Some(asg) => {
                let role_is_empty = role.unicode_len() == 0;
                let mut best: u32 = 0;
                let mut i: usize = 0;
                while i < asg.len()
                    invariant
                        i <= asg@.len(),
                        asg@ == self.assignments_of(user_id@),
                        role_is_empty == (role@.len() == 0),
                        best == max_depth(asg@.take(i as int), role@),
                    decreases asg.len() - i,
                {
                    assert(asg@.take(i + 1).drop_last() =~= asg@.take(i as int));
                    let a = &asg[i];
                    if (role_is_empty || str_eq(a.role_name.as_str(), role)) && a.delegation_depth > best {
                        best = a.delegation_depth;
                    }
                    i = i + 1;
                }
                assert(asg@.take(asg@.len() as int) =~= asg@);
                best
            },
            None => 0,
        }
    }

    /// An attribute value, read as time specifications, holds at the environment's
    /// `current_time`, or at `now` when the environment gives none.
    pub fn check_time_window_advanced_at(&self, time_window_value: &AttributeValue, environment: &Environment, now: i128) -> (r: bool)
        ensures
            r == time_value_holds(*time_window_value, evaluation_time(*environment, now as int), *environment),
    {
        let t = evaluation_instant(environment, now);
        check_time_value(time_window_value, t, environment)
    }

    /// An attribute value, read as time specifications, holds at the environment's
    /// `current_time`, or now when the environment gives none.
    pub fn check_time_window_advanced(&self, time_window_value: &AttributeValue, environment: &Environment) -> (r: bool)
        ensures
            exists|t: int|
                valid_instant(t) && r == time_value_holds(*time_window_value, evaluation_time(*environment, t), *environment),
    {
        let t = now();
        self.check_time_window_advanced_at(time_window_value, environment, t)
    }

    /// A session has been idle for less than 30 minutes at `now`.
    pub fn is_session_active_at(&self, session: &UserSession, now: i128) -> (r: bool)
        ensures
            r == session_active_at(*session, now as int),
    {
        let last = session.last_activity;
        if last >= now {
            true
        } else {
            match now.checked_sub(last) {
                Some(idle) => idle < SESSION_IDLE_LIMIT,
                None => false,
            }
        }
    }

    /// A session has been idle for less than 30 minutes now.
    pub fn is_session_active(&self, session: &UserSession) -> (r: bool)
        ensures
            exists|t: int| valid_instant(t) && r == session_active_at(*session, t),
    {
        let t = now();
        self.is_session_active_at(session, t)
    }

    /// The role named by `value` (a string) is delegated to `user_id` and in force at `now`.
    pub fn check_delegation_validity_at(&self, user_id: &str, value: &AttributeValue, now: i128) -> (r: bool)
        ensures
            r == match value {
                AttributeValue::String(role) => self.delegated(user_id@, role@, now as int),
                _ => false,
            },
    {
        match value {
            AttributeValue::String(role_name) => {
                let mut i: usize = 0;
                while i < self.delegations.len()
                    invariant
                        *value == AttributeValue::String(*role_name),
                        i <= self.delegations@.len(),
                        forall|k: int| 0 <= k < i ==> !((#[trigger] self.delegations@[k]).delegatee@ == user_id@
                            && self.delegations@[k].role@ == role_name@ && self.delegations@[k].expires_at > now),
                    decreases self.delegations.len() - i,
                {
                    let d = &self.delegations[i];
                    if str_eq(d.delegatee.as_str(), user_id) && str_eq(d.role.as_str(), role_name.as_str())
                        && d.expires_at > now {
                        assert(self.delegations@[i as int].delegatee@ == user_id@);
                        return true;
                    }
                    i = i + 1;
                }
                false
            },
            _ => false,
        }
    }

    /// The role named by `value` is delegated to `user_id` and in force now.
    pub fn check_delegation_validity(&self, user_id: &str, value: &AttributeValue) -> (r: bool)
        ensures
            exists|t: int|
                valid_instant(t) && r == match value {
                    AttributeValue::String(role) => self.delegated(user_id@, role@, t),
                    _ => false,
                },
    {
        let t = now();
        self.check_delegation_validity_at(user_id, value, t)
    }

    /// A role `user_id` holds now, from anywhere, grants `action` on `resource`.
    pub fn has_permission(&self, user_id: &str, resource: &str, action: &str) -> (r: bool)
        ensures
            exists|t: int| valid_instant(t) && r == self.permitted(user_id@, resource@, action@, t, None),
    {
        let t = now();
        self.has_permission_at(user_id, resource, action, t, None)
    }

    /// The roles `user_id` holds now, from anywhere.
    pub fn get_user_roles(&self, user_id: &str) -> (r: Vec<String>)
        ensures
            exists|t: int| valid_instant(t) && strs(r@) == self.active_roles(user_id@, t, None),
    {
        let t = now();
        self.get_active_roles_at_time(user_id, t, None)
    }
}


/// An assignment in force grants its role: the role is among the active roles.
pub proof fn lemma_active_assignment_grants(
    engine: RbacEngine,
    asg: Seq<DynamicRoleAssignment>,
    i: int,
    t: int,
    location: Option<Seq<char>>,
)
    requires
        0 <= i < asg.len(),
        assignment_active(asg[i], t, location),
    ensures
        engine.active_roles_in(asg, t, location).contains(asg[i].role_name@),
    decreases asg.len(),
{
    let prefix = engine.active_roles_in(asg.drop_last(), t, location);
    if i == asg.len() - 1 {
        let g = engine.granted(asg.last());
        assert((prefix + g)[prefix.len() as int] == asg[i].role_name@);
    } else {
        assert(asg.drop_last()[i] == asg[i]);
        lemma_active_assignment_grants(engine, asg.drop_last(), i, t, location);
        let k = choose|k: int| 0 <= k < prefix.len() && prefix[k] == asg[i].role_name@;
        let all = engine.active_roles_in(asg, t, location);
        assert(all[k] == prefix[k]);
    }
}

/// A user with an unconditional assignment of `role` that never expires holds
/// `role` at every instant, wherever the request comes from.
pub proof fn lemma_unconditional_role_always_held(
    engine: RbacEngine,
    user: Seq<char>,
    i: int,
    t: int,
    location: Option<Seq<char>>,
)
    requires
        0 <= i < engine.assignments_of(user).len(),
        engine.assignments_of(user)[i].expires_at is None,
        unconditional(engine.assignments_of(user)[i].conditions),
    ensures
        engine.active_roles(user, t, location).contains(engine.assignments_of(user)[i].role_name@),
{
    lemma_active_assignment_grants(engine, engine.assignments_of(user), i, t, location);
}

/// After a revocation of `role`, no assignment of that role is left.
pub proof fn lemma_revoked_role_gone(asg: Seq<DynamicRoleAssignment>, role: Seq<char>)
    ensures
        forall|i: int| 0 <= i < without_role(asg, role).len() ==> (#[trigger] without_role(asg, role)[i]).role_name@ != role,
    decreases asg.len(),
{
    if asg.len() > 0 {
        lemma_revoked_role_gone(asg.drop_last(), role);
    }
}

/// Dropping the assignments that expired at `now` changes no role held at `now`
/// or later.
pub proof fn lemma_unexpired_same_roles(
    engine: RbacEngine,
    asg: Seq<DynamicRoleAssignment>,
    now: int,
    t: int,
    location: Option<Seq<char>>,
)
    requires
        now <= t,
    ensures
        engine.active_roles_in(unexpired(asg, now), t, location) == engine.active_roles_in(asg, t, location),
    decreases asg.len(),
{
    if asg.len() > 0 {
        lemma_unexpired_same_roles(engine, asg.drop_last(), now, t, location);
        let rest = unexpired(asg.drop_last(), now);
        if !(asg.last().expires_at matches Some(e) && e <= now) {
            let kept = rest.push(asg.last());
            assert(kept.drop_last() =~= rest);
        } else {
            assert(!assignment_active(asg.last(), t, location));
            assert(engine.active_roles_in(asg, t, location) =~= engine.active_roles_in(asg.drop_last(), t, location));
        }
    }
}

/// Cleaning up expired assignments changes no role any user holds at the cleanup
/// instant or later.
pub proof fn lemma_cleanup_keeps_active_roles(
    before: RbacEngine,
    after: RbacEngine,
    now: int,
    user: Seq<char>,
    t: int,
    location: Option<Seq<char>>,
)
    requires
        after.user_roles.keys() == before.user_roles.keys(),
        forall|i: int| 0 <= i < after.user_roles.pairs().len() ==> (#[trigger] after.user_roles.pairs()[i]).1@
            == unexpired(before.user_roles.pairs()[i].1@, now),
        after.role_hierarchy == before.role_hierarchy,
        now <= t,
    ensures
        after.active_roles(user, t, location) == before.active_roles(user, t, location),
{
    let ps = before.user_roles.pairs();
    let qs = after.user_roles.pairs();
    assert(ps.len() == before.user_roles.keys().len());
    assert(qs.len() == after.user_roles.keys().len());
    assert forall|i: int| 0 <= i < ps.len() implies (#[trigger] ps[i]).0@ == qs[i].0@ by {
        assert(before.user_roles.keys()[i] == ps[i].0@);
        assert(after.user_roles.keys()[i] == qs[i].0@);
    }
    crate::dict::lemma_lookup_same_keys(ps, qs, user);
    if lookup_in(ps, user) is Some {
        let i = choose|i: int|
            first_at(ps, user, i) && first_at(qs, user, i) && lookup_in(ps, user) == Some(ps[i].1) && lookup_in(qs, user)
                == Some(qs[i].1);
        lemma_unexpired_same_roles(before, ps[i].1@, now, t, location);
        assert(after.assignments_of(user) == unexpired(before.assignments_of(user), now));
        assert forall|a: DynamicRoleAssignment| #[trigger] after.granted(a) == before.granted(a) by {}
        lemma_same_hierarchy_same_roles(before, after, unexpired(before.assignments_of(user), now), t, location);
    }
}

/// Engines with the same hierarchy derive the same roles from the same assignments.
pub proof fn lemma_same_hierarchy_same_roles(
    e1: RbacEngine,
    e2: RbacEngine,
    asg: Seq<DynamicRoleAssignment>,
    t: int,
    location: Option<Seq<char>>,
)
    requires
        e1.role_hierarchy == e2.role_hierarchy,
    ensures
        e1.active_roles_in(asg, t, location) == e2.active_roles_in(asg, t, location),
    decreases asg.len(),
{
    if asg.len() > 0 {
        lemma_same_hierarchy_same_roles(e1, e2, asg.drop_last(), t, location);
    }
}

/// The windows allow instant `t`.
pub fn is_time_allowed(time_windows: &Vec<TimeWindow>, t: i128) -> (r: bool)
    ensures
        r == time_allowed(time_windows@, t as int),
{
    if time_windows.len() == 0 {
        return true;
    }
    let wd = weekday_index_of(t);
    let today = day_of(t);
    let tod = time_of_day_of(t);
    let mut i: usize = 0;
    assert(time_windows@.skip(0) =~= time_windows@);
    while i < time_windows.len()
        invariant
            i <= time_windows@.len(),
            wd == weekday_index(t as int),
            today == day_number(t as int),
            tod == time_of_day(t as int),
            windows_admit(time_windows@, t as int) == windows_admit(time_windows@.skip(i as int), t as int),
        decreases time_windows.len() - i,
    {
        let ghost rest = time_windows@.skip(i as int);
        assert(rest.drop_first() =~= time_windows@.skip(i + 1));
        assert(rest[0] == time_windows@[i as int]);
        let w = &time_windows[i];
        if window_has_weekday(w, wd) {
            let (verdict, maintenance) = exception_verdict(&w.exceptions, today);
            match verdict {
                Some(b) => {
                    return b;
                },
                None => {
                    if !maintenance && (w.start_time as i128) <= tod && tod <= (w.end_time as i128) {
                        return true;
                    }
                },
            }
        }
        i = i + 1;
    }
    assert(time_windows@.skip(time_windows@.len() as int) =~= Seq::<TimeWindow>::empty());
    false
}

/// One of the window's weekdays has index `wd`.
fn window_has_weekday(w: &TimeWindow, wd: i128) -> (r: bool)
    requires
        0 <= wd < 7,
    ensures
        r == exists|k: int| 0 <= k < w.days_of_week@.len() && (#[trigger] w.days_of_week@[k]).index() == wd,
{
    let mut k: usize = 0;
    while k < w.days_of_week.len()
        invariant
            0 <= wd < 7,
            k <= w.days_of_week@.len(),
            forall|m: int| 0 <= m < k ==> (#[trigger] w.days_of_week@[m]).index() != wd,
        decreases w.days_of_week.len() - k,
    {
        if w.days_of_week[k].number_from_monday() as i128 == wd + 1 {
            return true;
        }
        k = k + 1;
    }
    false
}

/// The deciding exception for `day`, and whether `day` is under maintenance.
fn exception_verdict(es: &Vec<DateException>, day: i128) -> (r: (Option<bool>, bool))
    ensures
        r.0 == decisive_exception(es@, day as int),
        r.0 is None ==> r.1 == maintenance_on(es@, day as int),
{
    let mut maintenance = false;
    let mut i: usize = 0;
    assert(es@.skip(0) =~= es@);
    while i < es.len()
        invariant
            i <= es@.len(),
            decisive_exception(es@, day as int) == decisive_exception(es@.skip(i as int), day as int),
            maintenance == exists|k: int|
                0 <= k < i && (#[trigger] es@[k]).date == day && es@[k].exception_type
                    == ExceptionType::Maintenance,
        decreases es.len() - i,
    {
        let ghost rest = es@.skip(i as int);
        assert(rest.drop_first() =~= es@.skip(i + 1));
        assert(rest[0] == es@[i as int]);
        let e = es[i];
        if e.date as i128 == day {
            match e.exception_type {
                ExceptionType::Holiday => {
                    return (Some(false), maintenance);
                },
                ExceptionType::Emergency => {
                    return (Some(true), maintenance);
                },
                ExceptionType::Maintenance => {
                    maintenance = true;
                },
            }
        }
        i = i + 1;
    }
    assert(es@.skip(es@.len() as int) =~= Seq::<DateException>::empty());
    (None, maintenance)
}

/// The assignments of `v` that have not expired at `now`, in order.
fn retain_unexpired(v: Vec<DynamicRoleAssignment>, now: i128) -> (r: Vec<DynamicRoleAssignment>)
    ensures
        r@ == unexpired(v@, now as int),
{
    let ghost all = v@;
    let mut rest = v;
    let mut kept: Vec<DynamicRoleAssignment> = Vec::new();
    let ghost mut n: int = 0;
    assert(all.take(0) =~= Seq::<DynamicRoleAssignment>::empty());
    while rest.len() > 0
        invariant
            0 <= n <= all.len(),
            rest@ == all.skip(n),
            kept@ == unexpired(all.take(n), now as int),
        decreases rest.len(),
    {
        let a = rest.remove(0);
        proof {
            assert(all.take(n + 1).drop_last() =~= all.take(n));
            assert(all.take(n + 1).last() == a);
            assert(rest@ =~= all.skip(n + 1));
        }
        let keep = match a.expires_at {
            Some(e) => e > now,
            None => true,
        };
        if keep {
            kept.push(a);
        }
        proof {
            n = n + 1;
        }
    }
    assert(all.take(n) =~= all);
    kept
}

/// The assignments of `v` of any role but `role`, in order.
fn retain_other_roles(v: Vec<DynamicRoleAssignment>, role: &str) -> (r: Vec<DynamicRoleAssignment>)
    ensures
        r@ == without_role(v@, role@),
{
    let ghost all = v@;
    let mut rest = v;
    let mut kept: Vec<DynamicRoleAssignment> = Vec::new();
    let ghost mut n: int = 0;
    assert(all.take(0) =~= Seq::<DynamicRoleAssignment>::empty());
    while rest.len() > 0
        invariant
            0 <= n <= all.len(),
            rest@ == all.skip(n),
            kept@ == without_role(all.take(n), role@),
        decreases rest.len(),
    {
        let a = rest.remove(0);
        proof {
            assert(all.take(n + 1).drop_last() =~= all.take(n));
            assert(all.take(n + 1).last() == a);
            assert(rest@ =~= all.skip(n + 1));
        }
        if !str_eq(a.role_name.as_str(), role) {
            kept.push(a);
        }
        proof {
            n = n + 1;
        }
    }
    assert(all.take(n) =~= all);
    kept
}

/// The delegations of `v` that have not expired at `now`, in order.
fn retain_live_delegations(v: Vec<RoleDelegation>, now: i128) -> (r: Vec<RoleDelegation>)
    ensures
        r@ == live_delegations(v@, now as int),
{
    let ghost all = v@;
    let mut rest = v;
    let mut kept: Vec<RoleDelegation> = Vec::new();
    let ghost mut n: int = 0;
    assert(all.take(0) =~= Seq::<RoleDelegation>::empty());
    while rest.len() > 0
        invariant
            0 <= n <= all.len(),
            rest@ == all.skip(n),
            kept@ == live_delegations(all.take(n), now as int),
        decreases rest.len(),
    {
        let d = rest.remove(0);
        proof {
            assert(all.take(n + 1).drop_last() =~= all.take(n));
            assert(all.take(n + 1).last() == d);
            assert(rest@ =~= all.skip(n + 1));
        }
        if d.expires_at > now {
            kept.push(d);
        }
        proof {
            n = n + 1;
        }
    }
    assert(all.take(n) =~= all);
    kept
}

} // verus!
