//! The access context of a request: subject, resource, action and environment.
use vstd::prelude::*;

use crate::abac::attribute::{Action, Environment, Resource, Subject};
use crate::dict::StrMap;
use crate::text::{
    owned, split_on, split_str, str_eq, str_trim, str_trim_start_char, strs, trim_start_char,
    trim_ws,
};
use crate::types::common::AttributeValue;

verus! {

/// Everything a policy may look at for one request.
#[derive(Clone)]
pub struct AccessContext {
    pub subject: Subject,
    pub resource: Resource,
    pub action: Action,
    pub environment: Environment,
}

/// Formats the current time as RFC 3339.
///
/// Calls `chrono::Utc::now` and `DateTime::to_rfc3339`. The text depends on the
/// clock, so nothing is stated of it.
#[verifier::external_body]
fn now_rfc3339() -> String {
    chrono::Utc::now().to_rfc3339()
}

impl AccessContext {
    /// A context for `user_id` with the given roles, an empty resource and action,
    /// and the environment's `current_time` set to the current time.
    pub fn new(user_id: &str, user_roles: Vec<String>) -> (r: AccessContext)
        ensures
            Self::fresh(r, user_id@, user_roles@),
            r.environment.attributes.lookup("current_time"@) matches Some(
                AttributeValue::String(_),
            ),
            r.environment.attributes.keys() == seq!["current_time"@],
    {
        Self::new_at(user_id, user_roles, now_rfc3339())
    }

    /// A context for `user_id` with the given roles, an empty resource and action,
    /// and `current_time` as the environment's only attribute.
    pub fn new_at(user_id: &str, user_roles: Vec<String>, current_time: String) -> (r: AccessContext)
        ensures
            Self::fresh(r, user_id@, user_roles@),
            r.environment.attributes.lookup("current_time"@) matches Some(
                AttributeValue::String(t),
            ) && t@ == current_time@,
            r.environment.attributes.keys() == seq!["current_time"@],
    {
        let mut env_attrs: StrMap<AttributeValue> = StrMap::new();
        let ghost t = current_time@;
        env_attrs.insert(owned("current_time"), AttributeValue::String(current_time));
        assert(env_attrs.keys() =~= seq!["current_time"@]);
        AccessContext {
            subject: Subject { id: owned(user_id), roles: user_roles, attributes: StrMap::new() },
            resource: Resource {
                id: String::new(),
                resource_type: String::new(),
                owner: None,
                attributes: StrMap::new(),
            },
            action: Action { name: String::new(), attributes: StrMap::new() },
            environment: Environment { attributes: env_attrs },
        }
    }

    /// `c` describes `user_id` with `roles`, no subject, resource or action
    /// attributes, an empty resource and an empty action.
    pub open spec fn fresh(c: AccessContext, user_id: Seq<char>, roles: Seq<String>) -> bool {
        &&& c.subject.id@ == user_id
        &&& c.subject.roles@ == roles
        &&& c.subject.attributes.pairs().len() == 0
        &&& c.resource.id@ == Seq::<char>::empty()
        &&& c.resource.resource_type@ == Seq::<char>::empty()
        &&& c.resource.owner is None
        &&& c.resource.attributes.pairs().len() == 0
        &&& c.action.name@ == Seq::<char>::empty()
        &&& c.action.attributes.pairs().len() == 0
    }

    /// Sets the resource's id, type and owner; everything else is kept.
    pub fn with_resource(self, id: &str, resource_type: &str, owner: Option<&str>) -> (r: AccessContext)
        ensures
            r.resource.id@ == id@,
            r.resource.resource_type@ == resource_type@,
            match owner {
                Some(o) => r.resource.owner matches Some(x) && x@ == o@,
                None => r.resource.owner is None,
            },
            r.resource.attributes == self.resource.attributes,
            r.subject == self.subject,
            r.action == self.action,
            r.environment == self.environment,
    {
        let mut c = self;
        c.resource.id = owned(id);
        c.resource.resource_type = owned(resource_type);
        c.resource.owner = match owner {
            Some(o) => Some(owned(o)),
            None => None,
        };
        c
    }

    /// Sets the action's name; everything else is kept.
    pub fn with_action(self, name: &str) -> (r: AccessContext)
        ensures
            r.action.name@ == name@,
            r.action.attributes == self.action.attributes,
            r.subject == self.subject,
            r.resource == self.resource,
            r.environment == self.environment,
    {
        let mut c = self;
        c.action.name = owned(name);
        c
    }

    /// Stores a subject attribute; everything else is kept.
    pub fn with_subject_attr(self, name: &str, value: AttributeValue) -> (r: AccessContext)
        ensures
            forall|k: Seq<char>| #[trigger] r.subject.attributes.lookup(k) == if k == name@ {
                Some(value)
            } else {
                self.subject.attributes.lookup(k)
            },
            r.subject.id == self.subject.id,
            r.subject.roles == self.subject.roles,
            r.resource == self.resource,
            r.action == self.action,
            r.environment == self.environment,
    {
        let mut c = self;
        c.subject.attributes.insert(owned(name), value);
        c
    }

    /// Stores a resource attribute; everything else is kept.
    pub fn with_resource_attr(self, name: &str, value: AttributeValue) -> (r: AccessContext)
        ensures
            forall|k: Seq<char>| #[trigger] r.resource.attributes.lookup(k) == if k == name@ {
                Some(value)
            } else {
                self.resource.attributes.lookup(k)
            },
            r.resource.id == self.resource.id,
            r.resource.resource_type == self.resource.resource_type,
            r.resource.owner == self.resource.owner,
            r.subject == self.subject,
            r.action == self.action,
            r.environment == self.environment,
    {
        let mut c = self;
        c.resource.attributes.insert(owned(name), value);
        c
    }

    /// Stores an environment attribute; everything else is kept.
    pub fn with_environment_attr(self, name: &str, value: AttributeValue) -> (r: AccessContext)
        ensures
            forall|k: Seq<char>| #[trigger] r.environment.attributes.lookup(k) == if k == name@ {
                Some(value)
            } else {
                self.environment.attributes.lookup(k)
            },
            r.subject == self.subject,
            r.resource == self.resource,
            r.action == self.action,
    {
        let mut c = self;
        c.environment.attributes.insert(owned(name), value);
        c
    }
}

/// The segments of a request path that name a resource: those after the leading
/// slashes, without the `api` prefix that every route of the service carries.
pub open spec fn resource_segments(path: Seq<char>) -> Seq<Seq<char>> {
    let segments = split_on(trim_start_char(path, '/'), '/');
    if segments.len() >= 1 && segments[0] == "api"@ {
        segments.drop_first()
    } else {
        segments
    }
}

/// The resource type and id a request path names: the first two resource segments,
/// with `all` for a missing id, so `/api/users/42` names user `42`.
pub open spec fn resource_of_path(path: Seq<char>) -> (Seq<char>, Seq<char>) {
    let segments = resource_segments(path);
    if segments.len() >= 2 {
        (segments[0], segments[1])
    } else if segments.len() == 1 {
        (segments[0], "all"@)
    } else {
        ("unknown"@, "unknown"@)
    }
}

/// The resource type and id a request path names.
pub fn extract_resource_from_path(path: &str) -> (r: (String, String))
    ensures
        (r.0@, r.1@) == resource_of_path(path@),
{
    let trimmed = str_trim_start_char(path, '/');
    let segments = split_str(trimmed.as_str(), '/');
    let ghost all = strs(segments@);
    let skip: usize = if segments.len() >= 1 && str_eq(segments[0].as_str(), "api") {
        1
    } else {
        0
    };
    let ghost rest = all.skip(skip as int);
    assert(resource_segments(path@) =~= rest);
    let n = segments.len() - skip;
    if n >= 2 {
        assert(segments@[skip as int]@ == rest[0]);
        assert(segments@[skip + 1]@ == rest[1]);
        (segments[skip].clone(), segments[skip + 1].clone())
    } else if n == 1 {
        assert(segments@[skip as int]@ == rest[0]);
        (segments[skip].clone(), owned("all"))
    } else {
        (owned("unknown"), owned("unknown"))
    }
}

/// The action an HTTP method stands for.
pub open spec fn action_of_method(method: Seq<char>) -> Seq<char> {
    if method == "GET"@ {
        "read"@
    } else if method == "POST"@ {
        "create"@
    } else if method == "PUT"@ || method == "PATCH"@ {
        "update"@
    } else if method == "DELETE"@ {
        "delete"@
    } else {
        "unknown"@
    }
}

/// The action an HTTP method stands for.
pub fn action_for_method(method: &str) -> (r: String)
    ensures
        r@ == action_of_method(method@),
{
    if str_eq(method, "GET") {
        owned("read")
    } else if str_eq(method, "POST") {
        owned("create")
    } else if str_eq(method, "PUT") || str_eq(method, "PATCH") {
        owned("update")
    } else if str_eq(method, "DELETE") {
        owned("delete")
    } else {
        owned("unknown")
    }
}

/// The roles a comma-separated header lists, each trimmed of white space (none
/// without a header).
pub open spec fn roles_of_header(header: Option<Seq<char>>) -> Seq<Seq<char>> {
    match header {
        Some(h) => split_on(h, ',').map_values(|s: Seq<char>| trim_ws(s)),
        None => Seq::empty(),
    }
}

/// The roles a comma-separated header lists.
pub fn roles_from_header(header: Option<&str>) -> (r: Vec<String>)
    ensures
        strs(r@) == roles_of_header(match header {
            Some(h) => Some(h@),
            None => None,
        }),
{
    match header {
        Some(h) => {
            let parts = split_str(h, ',');
            let mut roles: Vec<String> = Vec::new();
            let mut i: usize = 0;
            while i < parts.len()
                invariant
                    i <= parts@.len(),
                    strs(parts@) == split_on(h@, ','),
                    roles@.len() == i,
                    forall|k: int| 0 <= k < i ==> #[trigger] roles@[k]@ == trim_ws(parts@[k]@),
                decreases parts.len() - i,
            {
                roles.push(str_trim(parts[i].as_str()));
                i = i + 1;
            }
            assert forall|k: int| 0 <= k < roles@.len() implies strs(roles@)[k] == split_on(
                h@,
                ',',
            ).map_values(|s: Seq<char>| trim_ws(s))[k] by {
                assert(strs(parts@)[k] == parts@[k]@);
            }
            assert(strs(roles@) =~= split_on(h@, ',').map_values(|s: Seq<char>| trim_ws(s)));
            roles
        },
        None => {
            let v: Vec<String> = Vec::new();
            assert(strs(v@) =~= Seq::<Seq<char>>::empty());
            v
        },
    }
}

/// The context of a request from what the request carries: the `x-user-id` and
/// `x-user-roles` headers, the path, the method and the client address.
///
/// The subject is `anonymous` without a user header; the resource comes from the
/// path; the action from the method; the environment holds `current_time` and
/// `ip_address` (`unknown` without an address).
pub fn context_from_request_parts(
    user_id: Option<&str>,
    roles_header: Option<&str>,
    path: &str,
    method: &str,
    client_ip: Option<&str>,
) -> (r: AccessContext)
    ensures
        r.subject.id@ == match user_id {
            Some(u) => u@,
            None => "anonymous"@,
        },
        strs(r.subject.roles@) == roles_of_header(match roles_header {
            Some(h) => Some(h@),
            None => None,
        }),
        (r.resource.resource_type@, r.resource.id@) == resource_of_path(path@),
        r.resource.owner is None,
        r.action.name@ == action_of_method(method@),
        r.environment.attributes.lookup("ip_address"@) matches Some(AttributeValue::String(ip))
            && ip@ == match client_ip {
            Some(a) => a@,
            None => "unknown"@,
        },
        r.environment.attributes.lookup("current_time"@) matches Some(AttributeValue::String(_)),
{
    let uid = match user_id {
        Some(u) => u,
        None => "anonymous",
    };
    let roles = roles_from_header(roles_header);
    let (resource_type, resource_id) = extract_resource_from_path(path);
    let action = action_for_method(method);
    let ip = match client_ip {
        Some(a) => owned(a),
        None => owned("unknown"),
    };
    let c = AccessContext::new(uid, roles);
    let c = c.with_resource(resource_id.as_str(), resource_type.as_str(), None);
    let c = c.with_action(action.as_str());
    let c = c.with_environment_attr("ip_address", AttributeValue::String(ip));
    proof {
        reveal_strlit("ip_address");
        reveal_strlit("current_time");
        assert("ip_address"@.len() != "current_time"@.len());
    }
    c
}

} // verus!
