//! The authentication service: accounts, logins, sessions, token refresh and
//! password resets.
//!
//! Every operation that depends on the time has a form that takes the instant as an
//! argument (`..._at`); the form without it reads the clock once.
use vstd::prelude::*;

use crate::auth::jwt::{
    lemma_issued_access_token_reads_back, access_check, access_claims_map, refresh_check, access_lifetime, issued_access_claims, issued_refresh_claims,
    refresh_claims_map, reset_claims_map, reset_subject, token_claims, valid_issue_second, hs256_signed,
    jwt_secret, RefreshClaimsView, lemma_reset_token_reads_back,
    AccessClaimsView, AccessTokenClaims, JwtManager, TokenPair, LONGEST_TOKEN_LIFETIME,
};
use crate::auth::user::{
    fresh_user, same_profile, ChangePasswordRequest, CreateUserRequest, LoginRequest, LoginResponse,
    RefreshTokenRequest, ResetPasswordRequest, User, UserInfo, new_uuid, LOCKOUT_MINUTES,
    MAX_FAILED_ATTEMPTS, PASSWORD_LIFETIME,
};
use crate::clock::{
    now, valid_instant, whole_seconds, whole_seconds_of, MAX_INSTANT, MAX_SECONDS, MIN_SECONDS, NANOS_PER_MINUTE,
};
use crate::dict::{
    unique_keys, absent_in, first_at, lemma_first_unique, lemma_lookup_absent, lemma_lookup_first, lemma_lookup_some,
    lemma_lookup_update, lookup_in, without, StrMap,
};
use crate::rbac::engine::{unconditional, RbacEngine};
use crate::rbac::role::DynamicRoleAssignment;
use crate::text::{
    chars_of, has_prefix, owned, str_contains_char, str_eq, str_starts_with, strs, trim_start_pattern,
};
use vstd::string::StringExecFns;
use vstd::utf8::encode_utf8;

verus! {

/// The `Uppercase` property of a character, as `char::is_uppercase` reads it.
pub uninterp spec fn is_upper(c: char) -> bool;

/// The `Lowercase` property of a character, as `char::is_lowercase` reads it.
pub uninterp spec fn is_lower(c: char) -> bool;

/// Whether `char::is_numeric` holds of a character.
pub uninterp spec fn is_numeral(c: char) -> bool;

/// Whether `char::is_alphanumeric` holds of a character.
pub uninterp spec fn is_alnum(c: char) -> bool;

/// Whether `char::is_uppercase` holds of a character: among ASCII characters exactly
/// `A` to `Z`; beyond ASCII, the Unicode `Uppercase` property (`is_upper`).
pub open spec fn upper_char(c: char) -> bool {
    if c <= '\u{7f}' {
        'A' <= c <= 'Z'
    } else {
        is_upper(c)
    }
}

/// Whether `char::is_lowercase` holds of a character: among ASCII characters exactly
/// `a` to `z`; beyond ASCII, the Unicode `Lowercase` property (`is_lower`).
pub open spec fn lower_char(c: char) -> bool {
    if c <= '\u{7f}' {
        'a' <= c <= 'z'
    } else {
        is_lower(c)
    }
}

/// Whether `char::is_numeric` holds of a character: among ASCII characters exactly
/// the digits; beyond ASCII, the Unicode number categories (`is_numeral`).
pub open spec fn numeral_char(c: char) -> bool {
    if c <= '\u{7f}' {
        '0' <= c <= '9'
    } else {
        is_numeral(c)
    }
}

/// Whether `char::is_alphanumeric` holds of a character: among ASCII characters
/// exactly the letters and digits; beyond ASCII, the Unicode `Alphabetic` property
/// or a number category (`is_alnum`).
pub open spec fn alnum_char(c: char) -> bool {
    if c <= '\u{7f}' {
        ('a' <= c <= 'z') || ('A' <= c <= 'Z') || ('0' <= c <= '9')
    } else {
        is_alnum(c)
    }
}

/// Calls `char::is_uppercase`. Its documentation ties it to the Unicode `Uppercase`
/// property, which among ASCII characters holds of `A` to `Z` only; beyond ASCII
/// the contract names the answer (`is_upper`).
#[verifier::external_body]
fn char_is_uppercase(c: char) -> (r: bool)
    ensures
        c <= '\u{7f}' ==> (r <==> ('A' <= c && c <= 'Z')),
        c > '\u{7f}' ==> r == is_upper(c),
{
    c.is_uppercase()
}

/// Calls `char::is_lowercase`. Its documentation ties it to the Unicode `Lowercase`
/// property, which among ASCII characters holds of `a` to `z` only; beyond ASCII
/// the contract names the answer (`is_lower`).
#[verifier::external_body]
fn char_is_lowercase(c: char) -> (r: bool)
    ensures
        c <= '\u{7f}' ==> (r <==> ('a' <= c && c <= 'z')),
        c > '\u{7f}' ==> r == is_lower(c),
{
    c.is_lowercase()
}

/// Calls `char::is_numeric`. Its documentation ties it to the Unicode number
/// categories, which among ASCII characters hold of the digits only; beyond ASCII
/// the contract names the answer (`is_numeral`).
#[verifier::external_body]
fn char_is_numeric(c: char) -> (r: bool)
    ensures
        c <= '\u{7f}' ==> (r <==> ('0' <= c && c <= '9')),
        c > '\u{7f}' ==> r == is_numeral(c),
{
    c.is_numeric()
}

/// Calls `char::is_alphanumeric`. Its documentation makes it `is_alphabetic` or
/// `is_numeric`, which among ASCII characters hold of the letters and digits only;
/// beyond ASCII the contract names the answer (`is_alnum`).
#[verifier::external_body]
fn char_is_alphanumeric(c: char) -> (r: bool)
    ensures
        c <= '\u{7f}' ==> (r <==> (('a' <= c && c <= 'z') || ('A' <= c && c <= 'Z') || ('0' <= c && c <= '9'))),
        c > '\u{7f}' ==> r == is_alnum(c),
{
    c.is_alphanumeric()
}

/// How long a session may sit idle before its tokens stop being accepted.
pub const SESSION_IDLE_LIMIT: i128 = 1_800_000_000_000;

/// How long an idle session is kept before it is cleaned up.
pub const SESSION_RETENTION: i128 = 86_400_000_000_000;

/// How long a password-reset token is valid.
pub const RESET_TOKEN_LIFETIME: i128 = 3_600_000_000_000;

/// A login session of the service.
#[derive(Clone)]
pub struct UserSession {
    pub session_id: String,
    pub user_id: String,
    /// Instant (nanoseconds since the epoch).
    pub created_at: i128,
    /// Instant (nanoseconds since the epoch).
    pub last_activity: i128,
    pub ip_address: Option<String>,
    pub user_agent: Option<String>,
    pub is_active: bool,
}

/// A password-reset token that was handed out.
#[derive(Clone)]
pub struct PasswordResetToken {
    pub token: String,
    pub user_id: String,
    /// Instant (nanoseconds since the epoch).
    pub created_at: i128,
    /// Instant (nanoseconds since the epoch).
    pub expires_at: i128,
    pub is_used: bool,
}

/// Why an authentication request was refused.
pub enum AuthError {
    UserNotFound,
    InvalidCredentials,
    UserLocked,
    UserInactive,
    PasswordExpired,
    MustChangePassword,
    TokenExpired,
    TokenInvalid,
    SessionExpired,
    SessionInvalid,
    UserAlreadyExists,
    WeakPassword,
    InvalidEmail,
    InternalError(String),
}

impl AuthError {
    /// The message that describes this error.
    pub open spec fn message(&self) -> Seq<char> {
        match self {
            AuthError::UserNotFound => "User not found"@,
            AuthError::InvalidCredentials => "Invalid credentials"@,
            AuthError::UserLocked => "Account is locked"@,
            AuthError::UserInactive => "Account is inactive"@,
            AuthError::PasswordExpired => "Password has expired"@,
            AuthError::MustChangePassword => "Password must be changed"@,
            AuthError::TokenExpired => "Token has expired"@,
            AuthError::TokenInvalid => "Token is invalid"@,
            AuthError::SessionExpired => "Session has expired"@,
            AuthError::SessionInvalid => "Session is invalid"@,
            AuthError::UserAlreadyExists => "User already exists"@,
            AuthError::WeakPassword => "Password is too weak"@,
            AuthError::InvalidEmail => "Invalid email address"@,
            AuthError::InternalError(msg) => "Internal error: "@ + msg@,
        }
    }

    /// The message that describes this error.
    pub fn to_string(&self) -> (r: String)
        ensures
            r@ == self.message(),
    {
        match self {
            AuthError::UserNotFound => owned("User not found"),
            AuthError::InvalidCredentials => owned("Invalid credentials"),
            AuthError::UserLocked => owned("Account is locked"),
            AuthError::UserInactive => owned("Account is inactive"),
            AuthError::PasswordExpired => owned("Password has expired"),
            AuthError::MustChangePassword => owned("Password must be changed"),
            AuthError::TokenExpired => owned("Token has expired"),
            AuthError::TokenInvalid => owned("Token is invalid"),
            AuthError::SessionExpired => owned("Session has expired"),
            AuthError::SessionInvalid => owned("Session is invalid"),
            AuthError::UserAlreadyExists => owned("User already exists"),
            AuthError::WeakPassword => owned("Password is too weak"),
            AuthError::InvalidEmail => owned("Invalid email address"),
            AuthError::InternalError(msg) => {
                let mut s = owned("Internal error: ");
                s.append(msg.as_str());
                s
            },
        }
    }
}

/// `u` is known by `name`, as its user name or its e-mail address.
pub open spec fn known_as(u: User, name: Seq<char>) -> bool {
    u.username@ == name || u.email@ == name
}

/// Entry `i` of `users` is the first known by `name`.
pub open spec fn first_known_as(users: Seq<(String, User)>, name: Seq<char>, i: int) -> bool {
    &&& 0 <= i < users.len()
    &&& known_as(users[i].1, name)
    &&& forall|j: int| 0 <= j < i ==> !known_as(#[trigger] users[j].1, name)
}

/// No entry of `users` is known by `name`.
pub open spec fn none_known_as(users: Seq<(String, User)>, name: Seq<char>) -> bool {
    forall|j: int| 0 <= j < users.len() ==> !known_as(#[trigger] users[j].1, name)
}

/// Entry `i` of `users` is the first with e-mail address `email`.
pub open spec fn first_with_email(users: Seq<(String, User)>, email: Seq<char>, i: int) -> bool {
    &&& 0 <= i < users.len()
    &&& users[i].1.email@ == email
    &&& forall|j: int| 0 <= j < i ==> (#[trigger] users[j].1).email@ != email
}

/// No entry of `users` has e-mail address `email`.
pub open spec fn none_with_email(users: Seq<(String, User)>, email: Seq<char>) -> bool {
    forall|j: int| 0 <= j < users.len() ==> (#[trigger] users[j].1).email@ != email
}

/// Some user already has the user name or the e-mail address of a new account.
pub open spec fn taken(users: Seq<(String, User)>, username: Seq<char>, email: Seq<char>) -> bool {
    exists|j: int| 0 <= j < users.len() && ((#[trigger] users[j].1).username@ == username || users[j].1.email@ == email)
}

/// A plausible e-mail address: it holds `@` and `.` and is longer than five bytes.
pub open spec fn valid_email(email: Seq<char>) -> bool {
    email.contains('@') && email.contains('.') && (encode_utf8(email).len() as usize) > 5
}

/// Some character of `s` is upper-case.
pub open spec fn has_upper(s: Seq<char>) -> bool {
    exists|i: int| 0 <= i < s.len() && upper_char(#[trigger] s[i])
}

/// Some character of `s` is lower-case.
pub open spec fn has_lower(s: Seq<char>) -> bool {
    exists|i: int| 0 <= i < s.len() && lower_char(#[trigger] s[i])
}

/// Some character of `s` is numeric.
pub open spec fn has_numeral(s: Seq<char>) -> bool {
    exists|i: int| 0 <= i < s.len() && numeral_char(#[trigger] s[i])
}

/// Some character of `s` is neither alphabetic nor numeric.
pub open spec fn has_symbol(s: Seq<char>) -> bool {
    exists|i: int| 0 <= i < s.len() && !alnum_char(#[trigger] s[i])
}

/// A strong password: at least eight bytes, with an upper-case letter, a lower-case
/// letter, a numeral and a symbol.
pub open spec fn strong_password(password: Seq<char>) -> bool {
    &&& (encode_utf8(password).len() as usize) >= 8
    &&& has_upper(password)
    &&& has_lower(password)
    &&& has_numeral(password)
    &&& has_symbol(password)
}

/// `u` after a failed login at `now`: one more failure (a count at its limit stays
/// there), and from the fifth failure on, locked for 30 minutes.
pub open spec fn after_failed_login(u: User, now: int) -> User {
    if u.failed_login_attempts < u32::MAX {
        User {
            failed_login_attempts: (u.failed_login_attempts + 1) as u32,
            locked_until: if u.failed_login_attempts + 1 >= MAX_FAILED_ATTEMPTS {
                Some((now + LOCKOUT_MINUTES * NANOS_PER_MINUTE) as i128)
            } else {
                u.locked_until
            },
            ..u
        }
    } else {
        u
    }
}

/// `u` after a successful login at `now`: the login is recorded, failures are
/// forgotten and any lock is lifted.
pub open spec fn after_login(u: User, now: i128) -> User {
    User { last_login: Some(now), locked_until: None, failed_login_attempts: 0, ..u }
}

/// Why a login of `u` with `password` at `now` is refused, checked in this order;
/// `None` when it is not.
pub open spec fn login_refusal(u: User, password: Seq<char>, now: int) -> Option<AuthError> {
    if !u.is_active {
        Some(AuthError::UserInactive)
    } else if u.locked_at(now) {
        Some(AuthError::UserLocked)
    } else if !u.accepts(password) {
        Some(AuthError::InvalidCredentials)
    } else if u.password_expired_at(now) {
        Some(AuthError::PasswordExpired)
    } else if u.must_change_password {
        Some(AuthError::MustChangePassword)
    } else {
        None
    }
}

/// `info` shows `u`.
pub open spec fn shows(info: UserInfo, u: User) -> bool {
    &&& info.id@ == u.id@
    &&& info.username@ == u.username@
    &&& info.email@ == u.email@
    &&& info.roles@ == u.roles@
    &&& same_profile(info.profile, u.profile)
}

/// An instant at which a login can lock an account and issue tokens.
pub open spec fn valid_login_time(now: int) -> bool {
    &&& valid_instant(now)
    &&& valid_instant(now + LOCKOUT_MINUTES * NANOS_PER_MINUTE)
    &&& valid_issue_second(whole_seconds(now))
}

/// `a` is the plain assignment of `role` that the system makes at `now`.
pub open spec fn system_assignment(a: DynamicRoleAssignment, role: Seq<char>, now: int) -> bool {
    &&& a.role_name@ == role
    &&& a.assigned_at == now
    &&& a.expires_at is None
    &&& a.assigned_by@ == "system"@
    &&& unconditional(a.conditions)
    &&& a.delegation_depth == 0
}

/// Each account is stored under its own id, and no id is stored twice.
pub open spec fn keyed_by_id(users: Seq<(String, User)>) -> bool {
    &&& unique_keys(users)
    &&& forall|j: int| 0 <= j < users.len() ==> (#[trigger] users[j]).0@ == users[j].1.id@
}

/// Replacing an account by one with the same id keeps the accounts keyed by id.
pub proof fn lemma_update_keeps_keys(users: Seq<(String, User)>, i: int, u: User)
    requires
        keyed_by_id(users),
        0 <= i < users.len(),
        u.id@ == users[i].1.id@,
    ensures
        keyed_by_id(users.update(i, (users[i].0, u))),
{
    let after = users.update(i, (users[i].0, u));
    assert forall|a: int, b: int| 0 <= a < b < after.len() implies (#[trigger] after[a]).0@ != (
    #[trigger] after[b]).0@ by {
        assert(users[a].0@ != users[b].0@);
    }
}

/// What creating an account from `request` under id `uid` at `now` does, from state
/// `s0` to state `s1` with answer `r`.
pub open spec fn create_outcome(
    s0: AuthService,
    s1: AuthService,
    r: Result<UserInfo, AuthError>,
    request: CreateUserRequest,
    uid: Seq<char>,
    now: i128,
) -> bool {
    let users = s0.user_table().pairs();
    if taken(users, request.username@, request.email@) {
        r == Err::<UserInfo, AuthError>(AuthError::UserAlreadyExists) && s1 == s0
    } else if !valid_email(request.email@) {
        r == Err::<UserInfo, AuthError>(AuthError::InvalidEmail) && s1 == s0
    } else if !strong_password(request.password@) {
        r == Err::<UserInfo, AuthError>(AuthError::WeakPassword) && s1 == s0
    } else {
        match r {
            Ok(info) => {
                let n0 = s0.rbac().assignments_of(uid).len();
                &&& s1.user_table().lookup(uid) matches Some(u) && fresh_user(u, request, now as int) && u.id@
                    == uid && u.accepts(request.password@)
                &&& forall|k: Seq<char>| k != uid ==> #[trigger] s1.user_table().lookup(k) == s0.user_table().lookup(k)
                &&& info.id@ == uid
                &&& info.username@ == request.username@
                &&& info.email@ == request.email@
                &&& info.roles@ == request.roles@
                &&& same_profile(info.profile, request.profile)
                &&& s1.rbac().same_but_assignments_of(&s0.rbac(), uid)
                &&& s1.rbac().assignments_of(uid).len() == n0 + request.roles@.len()
                &&& s1.rbac().assignments_of(uid).take(n0 as int) == s0.rbac().assignments_of(uid)
                &&& forall|j: int|
                    0 <= j < request.roles@.len() ==> system_assignment(
                        #[trigger] s1.rbac().assignments_of(uid)[n0 + j],
                        request.roles@[j]@,
                        now as int,
                    )
                &&& s1.session_table() == s0.session_table()
                &&& s1.refresh_table() == s0.refresh_table()
                &&& s1.reset_table() == s0.reset_table()
                &&& keyed_by_id(users) ==> keyed_by_id(s1.user_table().pairs())
            },
            Err(e) => (e matches AuthError::InternalError(m) && m@ == "Failed to hash password"@) && s1 == s0,
        }
    }
}

/// What changing the password of account `uid` with `request` at `now` does, from
/// state `s0` to state `s1` with answer `r`.
pub open spec fn change_outcome(
    s0: AuthService,
    s1: AuthService,
    r: Result<(), AuthError>,
    uid: Seq<char>,
    request: ChangePasswordRequest,
    now: i128,
) -> bool {
    &&& !strong_password(request.new_password@) ==> r == Err::<(), AuthError>(AuthError::WeakPassword)
        && s1 == s0
    &&& strong_password(request.new_password@) && absent_in(s0.user_table().pairs(), uid) ==> r
        == Err::<(), AuthError>(AuthError::UserNotFound) && s1 == s0
    &&& forall|i: int|
        #[trigger] first_at(s0.user_table().pairs(), uid, i) && strong_password(
            request.new_password@,
        ) ==> {
            let entry = s0.user_table().pairs()[i];
            if !entry.1.accepts(request.current_password@) {
                r == Err::<(), AuthError>(AuthError::InvalidCredentials) && s1 == s0
            } else {
                match r {
                    Ok(()) => {
                        &&& s1.user_table().pairs() == s0.user_table().pairs().update(
                            i,
                            (entry.0, s1.user_table().pairs()[i].1),
                        )
                        &&& s1.user_table().pairs()[i].1 == (User {
                            password_hash: s1.user_table().pairs()[i].1.password_hash,
                            must_change_password: false,
                            password_expires_at: Some((now + PASSWORD_LIFETIME) as i128),
                            ..entry.1
                        })
                        &&& s1.user_table().pairs()[i].1.accepts(request.new_password@)
                        &&& s1.session_table() == s0.session_table()
                        &&& s1.refresh_table() == s0.refresh_table()
                        &&& s1.reset_table() == s0.reset_table()
                        &&& s1.rbac() == s0.rbac()
                    },
                    Err(e) => {
                        &&& e matches AuthError::InternalError(m) && m@ == "Failed to hash password"@
                        &&& s1.user_table().pairs() == s0.user_table().pairs()
                        &&& s1.session_table() == s0.session_table()
                        &&& s1.refresh_table() == s0.refresh_table()
                        &&& s1.reset_table() == s0.reset_table()
                        &&& s1.rbac() == s0.rbac()
                    },
                }
            }
        }
}

/// What a request at `now` for a password-reset token for the account with address
/// `email` does, from state `s0` to state `s1` with answer `r`.
pub open spec fn reset_request_outcome(
    s0: AuthService,
    s1: AuthService,
    r: Result<String, AuthError>,
    email: Seq<char>,
    now: i128,
) -> bool {
    &&& none_with_email(s0.user_table().pairs(), email) ==> r == Err::<String, AuthError>(AuthError::UserNotFound)
        && s1 == s0
    &&& forall|i: int|
        #[trigger] first_with_email(s0.user_table().pairs(), email, i) ==> {
            let u = s0.user_table().pairs()[i].1;
            r matches Ok(token) && {
                    &&& token_claims(token@) == reset_claims_map(u.id@, whole_seconds(now as int))
                    &&& hs256_signed(token@, jwt_secret())
                    &&& s1.reset_table().lookup(token@) matches Some(t) && {
                        &&& t.token@ == token@
                        &&& t.user_id@ == u.id@
                        &&& t.created_at == now
                        &&& t.expires_at == now + RESET_TOKEN_LIFETIME
                        &&& !t.is_used
                    }
                    &&& forall|k: Seq<char>| k != token@ ==> #[trigger] s1.reset_table().lookup(k)
                        == s0.reset_table().lookup(k)
                    &&& s1.user_table() == s0.user_table()
                    &&& s1.session_table() == s0.session_table()
                    &&& s1.refresh_table() == s0.refresh_table()
                    &&& s1.rbac() == s0.rbac()
            }
        }
}

/// What a login at `now` under session id `sid` does, from state `s0` to state `s1`
/// with answer `r`.
pub open spec fn login_outcome(
    s0: AuthService,
    s1: AuthService,
    r: Result<LoginResponse, AuthError>,
    request: LoginRequest,
    ip_address: Option<String>,
    user_agent: Option<String>,
    now: i128,
    sid: Seq<char>,
) -> bool {
    &&& none_known_as(s0.user_table().pairs(), request.username_or_email@) ==> r == Err::<LoginResponse, AuthError>(
        AuthError::UserNotFound,
    ) && s1 == s0
    &&& forall|i: int|
        #[trigger] first_known_as(s0.user_table().pairs(), request.username_or_email@, i)
            ==> {
            let entry = s0.user_table().pairs()[i];
            let u = entry.1;
            match login_refusal(u, request.password@, now as int) {
                Some(AuthError::InvalidCredentials) => {
                    &&& r == Err::<LoginResponse, AuthError>(AuthError::InvalidCredentials)
                    &&& s1.user_table().pairs() == s0.user_table().pairs().update(
                        i,
                        (entry.0, after_failed_login(u, now as int)),
                    )
                    &&& s1.session_table() == s0.session_table()
                    &&& s1.refresh_table() == s0.refresh_table()
                    &&& s1.reset_table() == s0.reset_table()
                    &&& s1.rbac() == s0.rbac()
                },
                Some(e) => r == Err::<LoginResponse, AuthError>(e) && s1 == s0,
                None => r matches Ok(resp) && {
                    let remember = request.remember_me == Some(true);
                    let iat = whole_seconds(now as int) as i64;
                    {
                        &&& resp.expires_in == access_lifetime(remember)
                        &&& hs256_signed(resp.access_token@, jwt_secret())
                        &&& hs256_signed(resp.refresh_token@, jwt_secret())
                        &&& token_claims(resp.access_token@) == access_claims_map(
                            issued_access_claims(u, sid, iat, remember),
                        )
                        &&& token_claims(resp.refresh_token@) == refresh_claims_map(
                            issued_refresh_claims(u.id@, sid, iat, remember),
                        )
                        &&& shows(resp.user, after_login(u, now))
                        &&& s1.user_table().pairs() == s0.user_table().pairs().update(
                            i,
                            (entry.0, after_login(u, now)),
                        )
                        &&& s1.session_table().lookup(sid) matches Some(s) && {
                            &&& s.session_id@ == sid
                            &&& s.user_id@ == u.id@
                            &&& s.created_at == now
                            &&& s.last_activity == now
                            &&& s.ip_address == ip_address
                            &&& s.user_agent == user_agent
                            &&& s.is_active
                        }
                        &&& forall|k: Seq<char>| k != sid ==> #[trigger] s1.session_table().lookup(k)
                            == s0.session_table().lookup(k)
                        &&& s1.refresh_table().lookup(resp.refresh_token@) matches Some(owner)
                            && owner@ == u.id@
                        &&& forall|k: Seq<char>| k != resp.refresh_token@ ==> #[trigger] s1.refresh_table().lookup(k)
                            == s0.refresh_table().lookup(k)
                        &&& s1.reset_table() == s0.reset_table()
                        &&& s1.rbac().sessions_of(u.id@).drop_last() == s0.rbac().sessions_of(u.id@)
                        &&& s1.rbac().sessions_of(u.id@).len() == s0.rbac().sessions_of(u.id@).len() + 1
                        &&& s1.rbac().sessions_of(u.id@).last().session_id@ == sid
                    }
                },
            }
        }
}

/// The refresh tokens of `ps` that do not belong to `user`, in order.
pub open spec fn tokens_not_of(ps: Seq<(String, String)>, user: Seq<char>) -> Seq<(String, String)>
    decreases ps.len(),
{
    if ps.len() == 0 {
        ps
    } else if ps.last().1@ == user {
        tokens_not_of(ps.drop_last(), user)
    } else {
        tokens_not_of(ps.drop_last(), user).push(ps.last())
    }
}

/// No refresh token that `tokens_not_of` keeps belongs to `user`, and every one it
/// keeps was there before.
pub proof fn lemma_tokens_not_of(ps: Seq<(String, String)>, user: Seq<char>)
    ensures
        forall|j: int| 0 <= j < tokens_not_of(ps, user).len() ==> (#[trigger] tokens_not_of(ps, user)[j]).1@ != user,
        forall|j: int| 0 <= j < tokens_not_of(ps, user).len() ==> ps.contains(#[trigger] tokens_not_of(ps, user)[j]),
    decreases ps.len(),
{
    if ps.len() > 0 {
        lemma_tokens_not_of(ps.drop_last(), user);
        let rest = tokens_not_of(ps.drop_last(), user);
        assert forall|j: int| 0 <= j < tokens_not_of(ps, user).len() implies ps.contains(
            #[trigger] tokens_not_of(ps, user)[j],
        ) by {
            if j < rest.len() {
                let x = rest[j];
                assert(ps.drop_last().contains(x));
                let k = choose|k: int| 0 <= k < ps.drop_last().len() && ps.drop_last()[k] == x;
                assert(ps[k] == x);
            } else {
                assert(ps[ps.len() - 1] == ps.last());
            }
        }
    }
}

/// Why trading refresh token `tok` of user `u` for new tokens can fail once the user
/// is found and active: the token itself does not check out (an error of the token
/// library, or claims missing, of the wrong kind, or of another user).
pub open spec fn refresh_failure(m: Seq<char>, tok: Seq<char>, u: User) -> bool {
    ||| has_prefix(m, "Invalid refresh token: "@)
    ||| refresh_check(token_claims(tok)) == Err::<RefreshClaimsView, Seq<char>>(m)
    ||| (refresh_check(token_claims(tok)) matches Ok(v) && v.sub != u.id@ && m
        == "Refresh token doesn't belong to this user"@)
}

/// Dropping the refresh tokens of `user` keeps every other one: an entry stays
/// exactly when it was there and belongs to someone else. With one entry per token,
/// each token of another user still maps to that user, and no token maps to `user`.
pub proof fn lemma_other_users_keep_tokens(ps: Seq<(String, String)>, user: Seq<char>, k: Seq<char>)
    ensures
        forall|e: (String, String)| #[trigger] tokens_not_of(ps, user).contains(e) <==> (ps.contains(e) && e.1@ != user),
        unique_keys(ps) ==> (lookup_in(ps, k) matches Some(owner) ==> (owner@ != user ==> lookup_in(
            tokens_not_of(ps, user),
            k,
        ) == Some(owner))),
        lookup_in(tokens_not_of(ps, user), k) matches Some(owner) ==> owner@ != user,
    decreases ps.len(),
{
    lemma_tokens_not_of(ps, user);
    lemma_no_refresh_token_left(ps, user, k);
    let kept = tokens_not_of(ps, user);
    if ps.len() > 0 {
        lemma_other_users_keep_tokens(ps.drop_last(), user, k);
        assert forall|e: (String, String)| #[trigger] kept.contains(e) <==> (ps.contains(e) && e.1@ != user) by {
            if ps.contains(e) && e.1@ != user {
                let j = choose|j: int| 0 <= j < ps.len() && ps[j] == e;
                if j < ps.len() - 1 {
                    assert(ps.drop_last()[j] == e);
                    let rest = tokens_not_of(ps.drop_last(), user);
                    assert(rest.contains(e));
                    let m = choose|m: int| 0 <= m < rest.len() && rest[m] == e;
                    if ps.last().1@ != user {
                        assert(kept[m] == e);
                    }
                } else {
                    assert(kept[kept.len() - 1] == e);
                }
            }
            if kept.contains(e) {
                let m = choose|m: int| 0 <= m < kept.len() && kept[m] == e;
                assert(ps.contains(kept[m]));
                assert(kept[m].1@ != user);
            }
        }
    }
    if unique_keys(ps) && lookup_in(ps, k) is Some && lookup_in(ps, k)->0@ != user {
        let owner = lookup_in(ps, k)->0;
        lemma_lookup_some(ps, k);
        let i = choose|i: int| first_at(ps, k, i) && ps[i].1 == owner;
        assert(kept.contains(ps[i]));
        lemma_lookup_some(kept, k);
        assert(!absent_in(kept, k)) by {
            let m = choose|m: int| 0 <= m < kept.len() && kept[m] == ps[i];
            assert(kept[m].0@ == k);
        }
        let v = lookup_in(kept, k)->0;
        let i2 = choose|i2: int| first_at(kept, k, i2) && kept[i2].1 == v;
        assert(kept.contains(kept[i2]));
        assert(ps.contains(kept[i2]));
        let j = choose|j: int| 0 <= j < ps.len() && ps[j] == kept[i2];
        if j != i {
            if j < i {
                assert(ps[j].0@ != ps[i].0@);
            } else {
                assert(ps[i].0@ != ps[j].0@);
            }
        }
    }
}

/// What a refresh with refresh token `tok` at `now` under session id `sid` does,
/// from state `s0` to state `s1` with answer `r`: the new pair is issued for the
/// token's user, the old refresh token gives way to the new one, and a session is
/// opened under `sid` so that the new access token is accepted.
pub open spec fn refresh_outcome(
    s0: AuthService,
    s1: AuthService,
    r: Result<TokenPair, AuthError>,
    tok: Seq<char>,
    now: i128,
    sid: Seq<char>,
) -> bool {
    match s0.refresh_table().lookup(tok) {
        None => r == Err::<TokenPair, AuthError>(AuthError::TokenInvalid) && s1 == s0,
        Some(uid) => match s0.user_table().lookup(uid@) {
            None => r == Err::<TokenPair, AuthError>(AuthError::UserNotFound) && s1 == s0,
            Some(u) => if !u.is_active {
                r == Err::<TokenPair, AuthError>(AuthError::UserInactive) && s1 == s0
            } else {
                match r {
                    Ok(p) => {
                        let iat = whole_seconds(now as int) as i64;
                        &&& refresh_check(token_claims(tok)) matches Ok(v) && v.sub == u.id@
                        &&& hs256_signed(tok, jwt_secret())
                        &&& p.session_id@ == sid
                        &&& p.expires_in == access_lifetime(false)
                        &&& token_claims(p.access_token@) == access_claims_map(issued_access_claims(u, sid, iat, false))
                        &&& token_claims(p.refresh_token@) == refresh_claims_map(
                            issued_refresh_claims(u.id@, sid, iat, false),
                        )
                        &&& hs256_signed(p.access_token@, jwt_secret())
                        &&& hs256_signed(p.refresh_token@, jwt_secret())
                        &&& forall|k: Seq<char>| #[trigger] s1.refresh_table().lookup(k) == if k == p.refresh_token@ {
                            Some(uid)
                        } else if k == tok {
                            None
                        } else {
                            s0.refresh_table().lookup(k)
                        }
                        &&& s1.session_table().lookup(sid) matches Some(se) && {
                            &&& se.session_id@ == sid
                            &&& se.user_id@ == uid@
                            &&& se.created_at == now
                            &&& se.last_activity == now
                            &&& se.ip_address is None
                            &&& se.user_agent is None
                            &&& se.is_active
                        }
                        &&& forall|k: Seq<char>| k != sid ==> #[trigger] s1.session_table().lookup(k)
                            == s0.session_table().lookup(k)
                        &&& s1.user_table() == s0.user_table()
                        &&& s1.reset_table() == s0.reset_table()
                        &&& s1.rbac() == s0.rbac()
                    },
                    Err(e) => s1 == s0 && (e matches AuthError::InternalError(m) && refresh_failure(m@, tok, u)),
                }
            },
        },
    }
}

/// The account that a token with claims `v` opens at `now`, or why it opens none:
/// its session must exist, be active and not have sat idle for more than 30 minutes,
/// and its user must exist and be active.
pub open spec fn session_verdict(s: AuthService, v: AccessClaimsView, now: int) -> Result<User, AuthError> {
    match s.session_table().lookup(v.session_id) {
        None => Err(AuthError::SessionInvalid),
        Some(se) => if !se.is_active || now - se.last_activity > SESSION_IDLE_LIMIT {
            Err(AuthError::SessionExpired)
        } else {
            match s.user_table().lookup(v.sub) {
                None => Err(AuthError::UserNotFound),
                Some(u) => if !u.is_active {
                    Err(AuthError::UserInactive)
                } else {
                    Ok(u)
                },
            }
        },
    }
}

/// The sessions of `ps` with every session of `user` marked inactive.
pub open spec fn deactivated(ps: Seq<(String, UserSession)>, user: Seq<char>) -> Seq<(String, UserSession)> {
    Seq::new(
        ps.len(),
        |j: int|
            if ps[j].1.user_id@ == user {
                (ps[j].0, UserSession { is_active: false, ..ps[j].1 })
            } else {
                ps[j]
            },
    )
}

/// The active sessions of `user` in `ps`, in order.
pub open spec fn active_sessions_of(ps: Seq<(String, UserSession)>, user: Seq<char>) -> Seq<UserSession>
    decreases ps.len(),
{
    if ps.len() == 0 {
        Seq::empty()
    } else if ps.last().1.user_id@ == user && ps.last().1.is_active {
        active_sessions_of(ps.drop_last(), user).push(ps.last().1)
    } else {
        active_sessions_of(ps.drop_last(), user)
    }
}

/// The sessions of `ps` that are kept at `now`: active ones that have not sat idle
/// for more than a day.
pub open spec fn live_sessions(ps: Seq<(String, UserSession)>, now: int) -> Seq<(String, UserSession)>
    decreases ps.len(),
{
    if ps.len() == 0 {
        ps
    } else if ps.last().1.is_active && now - ps.last().1.last_activity <= SESSION_RETENTION {
        live_sessions(ps.drop_last(), now).push(ps.last())
    } else {
        live_sessions(ps.drop_last(), now)
    }
}

/// The reset tokens of `ps` that are kept at `now`: unused ones that have not expired.
pub open spec fn live_reset_tokens(ps: Seq<(String, PasswordResetToken)>, now: int) -> Seq<(String, PasswordResetToken)>
    decreases ps.len(),
{
    if ps.len() == 0 {
        ps
    } else if now <= ps.last().1.expires_at && !ps.last().1.is_used {
        live_reset_tokens(ps.drop_last(), now).push(ps.last())
    } else {
        live_reset_tokens(ps.drop_last(), now)
    }
}

/// What a password reset at `now` with `token` for account `uid` to `password`
/// leaves, from state `s0` to state `s1`: the account is its old record with a new
/// hash that the new password opens, no demand to change it, and an expiry 90 days
/// after `now`; the token is its old record, used up; every other account and reset
/// token is as it was; every session of the account is inactive and none of its
/// refresh tokens is left.
pub open spec fn reset_applied(
    s0: AuthService,
    s1: AuthService,
    token: Seq<char>,
    uid: Seq<char>,
    password: Seq<char>,
    now: int,
) -> bool {
    &&& s0.user_table().lookup(uid) matches Some(u0) && s1.user_table().lookup(uid) matches Some(u1) && {
        &&& u1.accepts(password)
        &&& u1 == (User {
            password_hash: u1.password_hash,
            must_change_password: false,
            password_expires_at: Some((now + PASSWORD_LIFETIME) as i128),
            ..u0
        })
    }
    &&& forall|k: Seq<char>| k != uid ==> #[trigger] s1.user_table().lookup(k) == s0.user_table().lookup(k)
    &&& s0.reset_table().lookup(token) matches Some(t0) && s1.reset_table().lookup(token) == Some(
        PasswordResetToken { is_used: true, ..t0 },
    )
    &&& forall|k: Seq<char>| k != token ==> #[trigger] s1.reset_table().lookup(k) == s0.reset_table().lookup(k)
    &&& s1.session_table().pairs() == deactivated(s0.session_table().pairs(), uid)
    &&& s1.refresh_table().pairs() == tokens_not_of(s0.refresh_table().pairs(), uid)
    &&& s1.rbac() == s0.rbac()
}

/// What a password reset at `now` with `token` to `password` does, from state `s0`
/// to state `s1` with answer `r`. A token whose claims name no user is invalid; so is
/// one that the token library refuses (a bad signature, or one that has expired by
/// the clock). Otherwise the reset goes as `apply_password_reset_at` says.
pub open spec fn reset_outcome(
    s0: AuthService,
    s1: AuthService,
    r: Result<(), AuthError>,
    token: Seq<char>,
    password: Seq<char>,
    now: int,
) -> bool {
    match reset_subject(token_claims(token)) {
        Err(_) => r == Err::<(), AuthError>(AuthError::TokenInvalid) && s1 == s0,
        Ok(uid) => match r {
            Ok(()) => {
                &&& hs256_signed(token, jwt_secret())
                &&& reset_refusal(s0, token, uid, password, now) is None
                &&& reset_applied(s0, s1, token, uid, password, now)
            },
            Err(e) => {
                &&& tables_unchanged(s0, s1)
                &&& {
                    ||| e == AuthError::TokenInvalid
                    ||| reset_refusal(s0, token, uid, password, now) == Some(e)
                    ||| (reset_refusal(s0, token, uid, password, now) is None && (e matches AuthError::InternalError(m)
                        && m@ == "Failed to hash password"@))
                }
            },
        },
    }
}

/// The accounts, sessions, refresh tokens, reset tokens and role-based engine of `s1`
/// are those of `s0`.
pub open spec fn tables_unchanged(s0: AuthService, s1: AuthService) -> bool {
    &&& s1.user_table().pairs() == s0.user_table().pairs()
    &&& s1.session_table().pairs() == s0.session_table().pairs()
    &&& s1.refresh_table().pairs() == s0.refresh_table().pairs()
    &&& s1.reset_table().pairs() == s0.reset_table().pairs()
    &&& s1.rbac() == s0.rbac()
}

/// What checking access token `token` against state `s` at `now` answers: a token
/// whose claims are not those of an access token is invalid; one that passes is
/// signed with the service's secret and opens the account its session verdict
/// gives; any other refusal is that verdict's, or the token library's (invalid).
pub open spec fn token_verification(s: AuthService, token: Seq<char>, now: int, r: Result<UserInfo, AuthError>) -> bool {
    &&& access_check(token_claims(token)) is Err ==> r == Err::<UserInfo, AuthError>(AuthError::TokenInvalid)
    &&& r is Ok ==> hs256_signed(token, jwt_secret())
    &&& match r {
        Ok(info) => access_check(token_claims(token)) matches Ok(v) && session_verdict(s, v, now) matches Ok(u)
            && shows(info, u),
        Err(e) => e == AuthError::TokenInvalid || (access_check(token_claims(token)) matches Ok(v) && session_verdict(
            s,
            v,
            now,
        ) == Err::<User, AuthError>(e)),
    }
}

/// Why a password reset with token `token` for user `uid` to `password` at `now` is
/// refused, checked in this order; `None` when it goes ahead.
pub open spec fn reset_refusal(s: AuthService, token: Seq<char>, uid: Seq<char>, password: Seq<char>, now: int) -> Option<
    AuthError,
> {
    if !strong_password(password) {
        Some(AuthError::WeakPassword)
    } else {
        match s.reset_table().lookup(token) {
            None => Some(AuthError::TokenInvalid),
            Some(t) => if t.is_used {
                Some(AuthError::TokenInvalid)
            } else if now > t.expires_at {
                Some(AuthError::TokenExpired)
            } else if s.user_table().lookup(uid) is None {
                Some(AuthError::UserNotFound)
            } else {
                None
            },
        }
    }
}

/// An account whose fifth login in a row fails is refused, even with the right
/// password, by any login of the same name in the next 30 minutes.
pub proof fn lemma_fifth_failure_locks(
    s0: AuthService,
    s1: AuthService,
    s2: AuthService,
    r1: Result<LoginResponse, AuthError>,
    r2: Result<LoginResponse, AuthError>,
    first: LoginRequest,
    second: LoginRequest,
    ips: (Option<String>, Option<String>),
    agents: (Option<String>, Option<String>),
    t1: i128,
    t2: i128,
    sids: (Seq<char>, Seq<char>),
    i: int,
)
    requires
        valid_login_time(t1 as int),
        login_outcome(s0, s1, r1, first, ips.0, agents.0, t1, sids.0),
        login_outcome(s1, s2, r2, second, ips.1, agents.1, t2, sids.1),
        first_known_as(s0.user_table().pairs(), first.username_or_email@, i),
        s0.user_table().pairs()[i].1.failed_login_attempts + 1 == MAX_FAILED_ATTEMPTS,
        r1 == Err::<LoginResponse, AuthError>(AuthError::InvalidCredentials),
        second.username_or_email@ == first.username_or_email@,
        t1 <= t2 < t1 + LOCKOUT_MINUTES * NANOS_PER_MINUTE,
    ensures
        r2 == Err::<LoginResponse, AuthError>(AuthError::UserLocked),
        s2 == s1,
{
    let name = first.username_or_email@;
    let ps0 = s0.user_table().pairs();
    let u = ps0[i].1;
    assert(login_refusal(u, first.password@, t1 as int) == Some(AuthError::InvalidCredentials));
    let ps1 = s1.user_table().pairs();
    assert(ps1 == ps0.update(i, (ps0[i].0, after_failed_login(u, t1 as int))));
    assert forall|j: int| 0 <= j < i implies !known_as(#[trigger] ps1[j].1, name) by {
        assert(ps1[j] == ps0[j]);
    }
    assert(first_known_as(ps1, name, i));
    let u1 = ps1[i].1;
    assert(u1.locked_at(t2 as int));
}

/// The access token of a successful login opens the account it was issued for, as
/// long as its session has not sat idle for more than 30 minutes.
pub proof fn lemma_login_token_opens_account(
    s0: AuthService,
    s1: AuthService,
    resp: LoginResponse,
    request: LoginRequest,
    ip_address: Option<String>,
    user_agent: Option<String>,
    now: i128,
    sid: Seq<char>,
    i: int,
    t: int,
)
    requires
        valid_login_time(now as int),
        keyed_by_id(s0.user_table().pairs()),
        login_outcome(s0, s1, Ok::<LoginResponse, AuthError>(resp), request, ip_address, user_agent, now, sid),
        first_known_as(s0.user_table().pairs(), request.username_or_email@, i),
        now <= t <= now + SESSION_IDLE_LIMIT,
    ensures
        access_check(token_claims(resp.access_token@)) matches Ok(v) && session_verdict(s1, v, t) == Ok::<
            User,
            AuthError,
        >(after_login(s0.user_table().pairs()[i].1, now)),
{
    let ps0 = s0.user_table().pairs();
    let u = ps0[i].1;
    let remember = request.remember_me == Some(true);
    let iat = whole_seconds(now as int) as i64;
    assert(login_refusal(u, request.password@, now as int) is None);
    let v = issued_access_claims(u, sid, iat, remember);
    lemma_issued_access_token_reads_back(u, sid, iat, remember);
    assert(access_check(token_claims(resp.access_token@)) == Ok::<AccessClaimsView, Seq<char>>(v));
    let ps1 = s1.user_table().pairs();
    assert(ps1 == ps0.update(i, (ps0[i].0, after_login(u, now))));
    lemma_update_keeps_keys(ps0, i, after_login(u, now));
    assert(first_at(ps1, u.id@, i)) by {
        assert forall|j: int| 0 <= j < i implies (#[trigger] ps1[j]).0@ != u.id@ by {
            assert(ps1[j] == ps0[j]);
            assert(ps0[j].0@ != ps0[i].0@);
        }
    }
    lemma_lookup_first(ps1, u.id@, i);
}

/// An account just made from a request can be logged into with the request's
/// password, at any time.
pub proof fn lemma_fresh_account_logs_in(u: User, request: CreateUserRequest, created: int, t: int)
    requires
        fresh_user(u, request, created),
        u.accepts(request.password@),
    ensures
        login_refusal(u, request.password@, t) is None,
{
}

/// An account just created logs in with its password, by its user name or its
/// e-mail address, when no account before it was known by that name: the login
/// succeeds and shows the new account with its roles.
pub proof fn lemma_created_account_logs_in(
    s0: AuthService,
    s1: AuthService,
    s2: AuthService,
    info: UserInfo,
    request: CreateUserRequest,
    uid: Seq<char>,
    created: i128,
    login: LoginRequest,
    client: (Option<String>, Option<String>),
    now: i128,
    sid: Seq<char>,
    r: Result<LoginResponse, AuthError>,
)
    requires
        keyed_by_id(s0.user_table().pairs()),
        create_outcome(s0, s1, Ok::<UserInfo, AuthError>(info), request, uid, created),
        login.username_or_email@ == request.username@ || login.username_or_email@ == request.email@,
        login.password@ == request.password@,
        none_known_as(s0.user_table().pairs(), login.username_or_email@),
        login_outcome(s1, s2, r, login, client.0, client.1, now, sid),
    ensures
        r matches Ok(resp) && resp.user.id@ == uid && resp.user.roles@ == request.roles@
            && resp.user.username@ == request.username@ && resp.user.email@ == request.email@,
{
    let name = login.username_or_email@;
    let ps0 = s0.user_table().pairs();
    let ps1 = s1.user_table().pairs();
    let u = s1.user_table().lookup(uid)->0;
    assert(keyed_by_id(ps1));
    lemma_lookup_some(ps1, uid);
    let i = choose|i: int| first_at(ps1, uid, i) && ps1[i].1 == u;
    assert forall|j: int| 0 <= j < ps1.len() && j != i implies !known_as(#[trigger] ps1[j].1, name) by {
        let k = ps1[j].0@;
        assert(k != uid) by {
            if j < i {
                assert(ps1[j].0@ != uid);
            } else {
                assert(ps1[i].0@ != ps1[j].0@);
            }
        }
        assert(first_at(ps1, k, j));
        lemma_lookup_first(ps1, k, j);
        assert(s1.user_table().lookup(k) == s0.user_table().lookup(k));
        lemma_lookup_some(ps0, k);
        let i0 = choose|i0: int| first_at(ps0, k, i0) && ps0[i0].1 == ps1[j].1;
        assert(!known_as(ps0[i0].1, name));
    }
    assert(first_known_as(ps1, name, i));
    lemma_fresh_account_logs_in(u, request, created as int, now as int);
    assert(login_refusal(u, login.password@, now as int) is None);
}

/// A refresh token that was traded for a new pair is refused afterwards.
pub proof fn lemma_refresh_token_single_use(
    s0: AuthService,
    s1: AuthService,
    s2: AuthService,
    p: TokenPair,
    r2: Result<TokenPair, AuthError>,
    tok: Seq<char>,
    times: (i128, i128),
    sids: (Seq<char>, Seq<char>),
)
    requires
        refresh_outcome(s0, s1, Ok::<TokenPair, AuthError>(p), tok, times.0, sids.0),
        refresh_outcome(s1, s2, r2, tok, times.1, sids.1),
        p.refresh_token@ != tok,
    ensures
        r2 == Err::<TokenPair, AuthError>(AuthError::TokenInvalid),
        s2 == s1,
{
    assert(s1.refresh_table().lookup(tok) is None);
}

/// The access token of a successful refresh opens the account of the refresh
/// token's user, as long as its new session has not sat idle for more than 30 minutes.
pub proof fn lemma_refreshed_token_opens_account(
    s0: AuthService,
    s1: AuthService,
    p: TokenPair,
    tok: Seq<char>,
    now: i128,
    sid: Seq<char>,
    t: int,
)
    requires
        keyed_by_id(s0.user_table().pairs()),
        refresh_outcome(s0, s1, Ok::<TokenPair, AuthError>(p), tok, now, sid),
        now <= t <= now + SESSION_IDLE_LIMIT,
    ensures
        s0.refresh_table().lookup(tok) matches Some(uid) && s0.user_table().lookup(uid@) matches Some(u) && u.id@
            == uid@ && (access_check(token_claims(p.access_token@)) matches Ok(v) && session_verdict(s1, v, t)
            == Ok::<User, AuthError>(u)),
{
    let uid = s0.refresh_table().lookup(tok)->0;
    let ps0 = s0.user_table().pairs();
    let u = s0.user_table().lookup(uid@)->0;
    lemma_lookup_some(ps0, uid@);
    let i = choose|i: int| first_at(ps0, uid@, i) && ps0[i].1 == u;
    assert(ps0[i].0@ == ps0[i].1.id@);
    assert(u.id@ == uid@);
    let iat = whole_seconds(now as int) as i64;
    lemma_issued_access_token_reads_back(u, sid, iat, false);
    let v = issued_access_claims(u, sid, iat, false);
    assert(access_check(token_claims(p.access_token@)) == Ok::<AccessClaimsView, Seq<char>>(v));
}

/// A password-reset token handed out for an account names that account; within
/// the hour, a reset with it to a strong password is not refused.
pub proof fn lemma_reset_request_allows_reset(
    s0: AuthService,
    s1: AuthService,
    token: String,
    email: Seq<char>,
    now: i128,
    i: int,
    password: Seq<char>,
    t: int,
)
    requires
        keyed_by_id(s0.user_table().pairs()),
        reset_request_outcome(s0, s1, Ok::<String, AuthError>(token), email, now),
        first_with_email(s0.user_table().pairs(), email, i),
        strong_password(password),
        now <= t <= now + RESET_TOKEN_LIFETIME,
    ensures
        reset_subject(token_claims(token@)) == Ok::<Seq<char>, Seq<char>>(s0.user_table().pairs()[i].1.id@),
        reset_refusal(s1, token@, s0.user_table().pairs()[i].1.id@, password, t) is None,
{
    let ps = s0.user_table().pairs();
    let u = ps[i].1;
    lemma_reset_token_reads_back(u.id@, whole_seconds(now as int));
    lemma_lookup_some(ps, u.id@);
    assert(!absent_in(ps, u.id@)) by {
        assert(ps[i].0@ == u.id@);
    }
}

/// A password-reset token handed out for an account resets its password once:
/// within the hour, a reset with it to a strong password is refused only by the
/// token library (as invalid) or by a failure to hash; when it goes ahead the
/// account opens with the new password, and a second reset with the token is
/// refused as invalid.
pub proof fn lemma_reset_after_request(
    s0: AuthService,
    s1: AuthService,
    s2: AuthService,
    s3: AuthService,
    token: String,
    email: Seq<char>,
    requested: i128,
    i: int,
    passwords: (Seq<char>, Seq<char>),
    times: (int, int),
    results: (Result<(), AuthError>, Result<(), AuthError>),
)
    requires
        keyed_by_id(s0.user_table().pairs()),
        reset_request_outcome(s0, s1, Ok::<String, AuthError>(token), email, requested),
        first_with_email(s0.user_table().pairs(), email, i),
        strong_password(passwords.0),
        strong_password(passwords.1),
        requested <= times.0 <= requested + RESET_TOKEN_LIFETIME,
        reset_outcome(s1, s2, results.0, token@, passwords.0, times.0),
        reset_outcome(s2, s3, results.1, token@, passwords.1, times.1),
    ensures
        results.0 is Ok ==> (s2.user_table().lookup(s0.user_table().pairs()[i].1.id@) matches Some(u) && u.accepts(
            passwords.0,
        )),
        results.0 matches Err(e) ==> e == AuthError::TokenInvalid || (e matches AuthError::InternalError(m) && m@
            == "Failed to hash password"@),
        results.0 is Ok ==> results.1 == Err::<(), AuthError>(AuthError::TokenInvalid),
{
    let uid = s0.user_table().pairs()[i].1.id@;
    lemma_reset_request_allows_reset(s0, s1, token, email, requested, i, passwords.0, times.0);
    if results.0 is Ok {
        lemma_reset_token_single_use(s2, token@, uid, passwords.1, times.1);
    }
}

/// The access token of a successful refresh, checked while its session is fresh,
/// opens the account of the refresh token's user; it is refused only by the token
/// library, as invalid.
pub proof fn lemma_refresh_then_verify(
    s0: AuthService,
    s1: AuthService,
    p: TokenPair,
    tok: Seq<char>,
    now: i128,
    sid: Seq<char>,
    t: int,
    r: Result<UserInfo, AuthError>,
)
    requires
        keyed_by_id(s0.user_table().pairs()),
        refresh_outcome(s0, s1, Ok::<TokenPair, AuthError>(p), tok, now, sid),
        now <= t <= now + SESSION_IDLE_LIMIT,
        token_verification(s1, p.access_token@, t, r),
    ensures
        s0.refresh_table().lookup(tok) matches Some(uid) && (r matches Ok(info) ==> info.id@ == uid@),
        r matches Err(e) ==> e == AuthError::TokenInvalid,
{
    lemma_refreshed_token_opens_account(s0, s1, p, tok, now, sid, t);
}

/// No refresh token that `tokens_not_of` keeps belongs to `user`: after a logout or
/// a password reset, none of the user's refresh tokens is accepted.
pub proof fn lemma_no_refresh_token_left(ps: Seq<(String, String)>, user: Seq<char>, k: Seq<char>)
    ensures
        lookup_in(tokens_not_of(ps, user), k) matches Some(owner) ==> owner@ != user,
{
    lemma_tokens_not_of(ps, user);
    lemma_lookup_some(tokens_not_of(ps, user), k);
}

/// A password-reset token that reset a password is refused afterwards, whatever
/// strong password it is offered with.
pub proof fn lemma_reset_token_single_use(
    s: AuthService,
    token: Seq<char>,
    uid: Seq<char>,
    password: Seq<char>,
    now: int,
)
    requires
        s.reset_table().lookup(token) matches Some(t) && t.is_used,
        strong_password(password),
    ensures
        reset_refusal(s, token, uid, password, now) == Some(AuthError::TokenInvalid),
{
}

/// What the authentication gate decides for one request.
pub enum AuthGate {
    /// The path needs no authentication.
    Skipped,
    /// The token opened this account.
    Authenticated(UserInfo),
    /// The request is refused, with an error and a message for the client.
    Rejected { error: String, message: String },
}

/// Some path of `skip_paths` is a prefix of `path`.
pub open spec fn skipped_path(path: Seq<char>, skip_paths: Seq<String>) -> bool {
    exists|i: int| 0 <= i < skip_paths.len() && has_prefix(path, (#[trigger] skip_paths[i])@)
}

impl AuthError {
    /// The HTTP status with which a failed login is answered.
    pub open spec fn login_status_spec(&self) -> u16 {
        match self {
            AuthError::InvalidCredentials => 401,
            AuthError::UserLocked => 423,
            AuthError::UserInactive => 403,
            AuthError::PasswordExpired => 422,
            AuthError::MustChangePassword => 422,
            _ => 400,
        }
    }

    /// The HTTP status with which a failed login is answered.
    pub fn login_status(&self) -> (r: u16)
        ensures
            r == self.login_status_spec(),
    {
        match self {
            AuthError::InvalidCredentials => 401,
            AuthError::UserLocked => 423,
            AuthError::UserInactive => 403,
            AuthError::PasswordExpired => 422,
            AuthError::MustChangePassword => 422,
            _ => 400,
        }
    }
}

impl UserInfo {
    /// The user holds `role`.
    pub fn has_role(&self, role: &str) -> (r: bool)
        ensures
            r == strs(self.roles@).contains(role@),
    {
        let mut i: usize = 0;
        while i < self.roles.len()
            invariant
                i <= self.roles@.len(),
                forall|j: int| 0 <= j < i ==> (#[trigger] self.roles@[j])@ != role@,
            decreases self.roles@.len() - i,
        {
            if str_eq(self.roles[i].as_str(), role) {
                assert(strs(self.roles@)[i as int] == role@);
                return true;
            }
            i = i + 1;
        }
        assert forall|j: int| 0 <= j < strs(self.roles@).len() implies strs(self.roles@)[j] != role@ by {
            assert(strs(self.roles@)[j] == self.roles@[j]@);
        }
        false
    }

    /// The user holds one of `roles`.
    pub fn has_any_role(&self, roles: &[&str]) -> (r: bool)
        ensures
            r == exists|k: int| 0 <= k < roles@.len() && strs(self.roles@).contains((#[trigger] roles@[k])@),
    {
        let mut k: usize = 0;
        while k < roles.len()
            invariant
                k <= roles@.len(),
                forall|j: int| 0 <= j < k ==> !strs(self.roles@).contains((#[trigger] roles@[j])@),
            decreases roles@.len() - k,
        {
            if self.has_role(roles[k]) {
                return true;
            }
            k = k + 1;
        }
        false
    }
}

/// `after` is `before` with activity at `now` marked on session `sid`.
pub open spec fn activity_recorded(
    before: StrMap<UserSession>,
    after: StrMap<UserSession>,
    sid: Seq<char>,
    now: i128,
) -> bool {
    before.lookup(sid) matches Some(se) && forall|k: Seq<char>| #[trigger] after.lookup(k) == if k == sid {
        Some(UserSession { last_activity: now, ..se })
    } else {
        before.lookup(k)
    }
}

/// A copy of an optional string.
fn copy_opt(o: &Option<String>) -> (r: Option<String>)
    ensures
        r == *o,
{
    match o {
        Some(s) => Some(s.clone()),
        None => None,
    }
}

impl UserSession {
    /// A copy of this session.
    pub fn clone_session(&self) -> (r: UserSession)
        ensures
            r == *self,
    {
        UserSession {
            session_id: self.session_id.clone(),
            user_id: self.user_id.clone(),
            created_at: self.created_at,
            last_activity: self.last_activity,
            ip_address: copy_opt(&self.ip_address),
            user_agent: copy_opt(&self.user_agent),
            is_active: self.is_active,
        }
    }
}

impl PasswordResetToken {
    /// A copy of this token record.
    pub fn clone_token(&self) -> (r: PasswordResetToken)
        ensures
            r == *self,
    {
        PasswordResetToken {
            token: self.token.clone(),
            user_id: self.user_id.clone(),
            created_at: self.created_at,
            expires_at: self.expires_at,
            is_used: self.is_used,
        }
    }
}

/// The authentication service.
#[derive(Clone)]
pub struct AuthService {
    /// Accounts by id.
    users: StrMap<User>,
    pub jwt_manager: JwtManager,
    rbac_engine: RbacEngine,
    /// Sessions by session id.
    active_sessions: StrMap<UserSession>,
    /// The user id of each refresh token.
    refresh_tokens: StrMap<String>,
    /// Reset tokens by token.
    password_reset_tokens: StrMap<PasswordResetToken>,
}

impl AuthService {
    /// The accounts, by id.
    pub closed spec fn user_table(&self) -> StrMap<User> {
        self.users
    }

    /// The role-based engine that learns of accounts and sessions.
    pub closed spec fn rbac(&self) -> RbacEngine {
        self.rbac_engine
    }

    /// The sessions, by session id.
    pub closed spec fn session_table(&self) -> StrMap<UserSession> {
        self.active_sessions
    }

    /// The user id of each live refresh token.
    pub closed spec fn refresh_table(&self) -> StrMap<String> {
        self.refresh_tokens
    }

    /// The password-reset tokens that were handed out, by token.
    pub closed spec fn reset_table(&self) -> StrMap<PasswordResetToken> {
        self.password_reset_tokens
    }

    /// A service with no accounts, sessions or tokens, around `rbac_engine`.
    pub fn new(rbac_engine: RbacEngine) -> (r: AuthService)
        ensures
            r.user_table().pairs().len() == 0,
            r.session_table().pairs().len() == 0,
            r.refresh_table().pairs().len() == 0,
            r.reset_table().pairs().len() == 0,
            r.rbac() == rbac_engine,
    {
        AuthService {
            users: StrMap::new(),
            jwt_manager: JwtManager::new(),
            rbac_engine,
            active_sessions: StrMap::new(),
            refresh_tokens: StrMap::new(),
            password_reset_tokens: StrMap::new(),
        }
    }

    /// The position of the first account known by `username_or_email`.
    fn find_user_by_username_or_email(&self, username_or_email: &str) -> (r: Option<usize>)
        ensures
            match r {
                Some(i) => first_known_as(self.user_table().pairs(), username_or_email@, i as int),
                None => none_known_as(self.user_table().pairs(), username_or_email@),
            },
    {
        let mut i: usize = 0;
        while i < self.users.len()
            invariant
                i <= self.users.pairs().len(),
                forall|j: int| 0 <= j < i ==> !known_as(#[trigger] self.users.pairs()[j].1, username_or_email@),
            decreases self.users.pairs().len() - i,
        {
            let u = self.users.value_at(i);
            if str_eq(u.username.as_str(), username_or_email) || str_eq(u.email.as_str(), username_or_email) {
                return Some(i);
            }
            i = i + 1;
        }
        None
    }

    /// The position of the first account with e-mail address `email`.
    fn find_user_by_email(&self, email: &str) -> (r: Option<usize>)
        ensures
            match r {
                Some(i) => first_with_email(self.user_table().pairs(), email@, i as int),
                None => none_with_email(self.user_table().pairs(), email@),
            },
    {
        let mut i: usize = 0;
        while i < self.users.len()
            invariant
                i <= self.users.pairs().len(),
                forall|j: int| 0 <= j < i ==> (#[trigger] self.users.pairs()[j].1).email@ != email@,
            decreases self.users.pairs().len() - i,
        {
            let u = self.users.value_at(i);
            if str_eq(u.email.as_str(), email) {
                return Some(i);
            }
            i = i + 1;
        }
        None
    }

    /// Some account already has this user name or e-mail address.
    fn name_taken(&self, username: &str, email: &str) -> (r: bool)
        ensures
            r == taken(self.user_table().pairs(), username@, email@),
    {
        let mut i: usize = 0;
        while i < self.users.len()
            invariant
                i <= self.users.pairs().len(),
                forall|j: int|
                    0 <= j < i ==> !((#[trigger] self.users.pairs()[j].1).username@ == username@
                        || self.users.pairs()[j].1.email@ == email@),
            decreases self.users.pairs().len() - i,
        {
            let u = self.users.value_at(i);
            if str_eq(u.username.as_str(), username) || str_eq(u.email.as_str(), email) {
                return true;
            }
            i = i + 1;
        }
        false
    }

    /// A plausible e-mail address: it holds `@` and `.` and is longer than five bytes.
    pub fn is_valid_email(&self, email: &str) -> (r: bool)
        ensures
            r == valid_email(email@),
    {
        str_contains_char(email, '@') && str_contains_char(email, '.') && email.len() > 5
    }

    /// A strong password: at least eight bytes, with an upper-case letter, a
    /// lower-case letter, a numeral and a symbol.
    pub fn is_strong_password(&self, password: &str) -> (r: bool)
        ensures
            r == strong_password(password@),
    {
        let cs = chars_of(password);
        let mut upper = false;
        let mut lower = false;
        let mut numeral = false;
        let mut symbol = false;
        let mut i: usize = 0;
        while i < cs.len()
            invariant
                cs@ == password@,
                i <= cs@.len(),
                upper == exists|j: int| 0 <= j < i && upper_char(#[trigger] cs@[j]),
                lower == exists|j: int| 0 <= j < i && lower_char(#[trigger] cs@[j]),
                numeral == exists|j: int| 0 <= j < i && numeral_char(#[trigger] cs@[j]),
                symbol == exists|j: int| 0 <= j < i && !alnum_char(#[trigger] cs@[j]),
            decreases cs@.len() - i,
        {
            let c = cs[i];
            if char_is_uppercase(c) {
                upper = true;
            }
            if char_is_lowercase(c) {
                lower = true;
            }
            if char_is_numeric(c) {
                numeral = true;
            }
            if !char_is_alphanumeric(c) {
                symbol = true;
            }
            i = i + 1;
        }
        password.len() >= 8 && upper && lower && numeral && symbol
    }

    /// Creates an account with id `user_id` at `now`, unless its user name or e-mail
    /// address is taken, the address is implausible or the password is weak. Each of
    /// its roles is assigned to it in the role-based engine, in order.
    pub fn create_user_at(&mut self, request: CreateUserRequest, user_id: String, now: i128) -> (r: Result<
        UserInfo,
        AuthError,
    >)
        ensures
            create_outcome(*old(self), *final(self), r, request, user_id@, now),
    {
        if self.name_taken(request.username.as_str(), request.email.as_str()) {
            return Err(AuthError::UserAlreadyExists);
        }
        if !self.is_valid_email(request.email.as_str()) {
            return Err(AuthError::InvalidEmail);
        }
        if !self.is_strong_password(request.password.as_str()) {
            return Err(AuthError::WeakPassword);
        }
        let ghost req = request;
        let user = match User::new_at(request, user_id, now) {
            Ok(u) => u,
            Err(e) => {
                return Err(AuthError::InternalError(e));
            },
        };
        let user_info = user.to_user_info();
        let ghost rbac0 = self.rbac_engine;
        let ghost n0 = rbac0.assignments_of(user.id@).len();
        let mut k: usize = 0;
        while k < user.roles.len()
            invariant
                k <= user.roles@.len(),
                self.rbac_engine.same_but_assignments_of(&rbac0, user.id@),
                self.rbac_engine.assignments_of(user.id@).len() == n0 + k,
                self.rbac_engine.assignments_of(user.id@).take(n0 as int) == rbac0.assignments_of(user.id@),
                forall|j: int|
                    0 <= j < k ==> system_assignment(
                        #[trigger] self.rbac_engine.assignments_of(user.id@)[n0 + j],
                        user.roles@[j]@,
                        now as int,
                    ),
                n0 == rbac0.assignments_of(user.id@).len(),
                rbac0 == old(self).rbac_engine,
                self.users == old(self).users,
                self.active_sessions == old(self).active_sessions,
                self.refresh_tokens == old(self).refresh_tokens,
                self.password_reset_tokens == old(self).password_reset_tokens,
            decreases user.roles@.len() - k,
        {
            let ghost before = self.rbac_engine;
            self.rbac_engine.assign_role_to_user_at(user.id.as_str(), user.roles[k].as_str(), now);
            proof {
                let a = self.rbac_engine.assignments_of(user.id@);
                assert(a.drop_last() == before.assignments_of(user.id@));
                assert(a.take(n0 as int) =~= a.drop_last().take(n0 as int));
                assert forall|j: int| 0 <= j < k + 1 implies system_assignment(
                    #[trigger] a[n0 + j],
                    user.roles@[j]@,
                    now as int,
                ) by {
                    if j < k {
                        assert(a[n0 + j] == a.drop_last()[n0 + j]);
                    }
                }
            }
            k = k + 1;
        }
        let key = user.id.clone();
        self.users.insert(key, user);
        Ok(user_info)
    }

    /// Logs in by user name or e-mail address at `now`, under session id `session_id`.
    ///
    /// The first account known by that name is checked: it must be active, unlocked,
    /// opened by the password, with a password that has not expired and need not be
    /// changed. A wrong password counts as a failed login. On success the session and
    /// the refresh token are recorded, the login is recorded on the account, and a
    /// session is started in the role-based engine.
    pub fn login_at(
        &mut self,
        request: LoginRequest,
        ip_address: Option<String>,
        user_agent: Option<String>,
        now: i128,
        session_id: String,
    ) -> (r: Result<LoginResponse, AuthError>)
        requires
            valid_login_time(now as int),
        ensures
            login_outcome(*old(self), *final(self), r, request, ip_address, user_agent, now, session_id@),
    {
        let i = match self.find_user_by_username_or_email(request.username_or_email.as_str()) {
            Some(i) => i,
            None => {
                return Err(AuthError::UserNotFound);
            },
        };
        let ghost entry = self.users.pairs()[i as int];
        let (user_id, valid, active, locked, expired, must_change) = {
            let u = self.users.value_at(i);
            (
                u.id.clone(),
                u.verify_password(request.password.as_str()),
                u.is_active,
                u.is_locked_at(now),
                u.is_password_expired_at(now),
                u.must_change_password,
            )
        };
        if !active {
            return Err(AuthError::UserInactive);
        }
        if locked {
            return Err(AuthError::UserLocked);
        }
        if !valid {
            let u = self.users.value_mut(i);
            if u.failed_login_attempts < u32::MAX {
                u.increment_failed_attempts_at(now);
            }
            return Err(AuthError::InvalidCredentials);
        }
        if expired {
            return Err(AuthError::PasswordExpired);
        }
        if must_change {
            return Err(AuthError::MustChangePassword);
        }
        let remember = match request.remember_me {
            Some(b) => b,
            None => false,
        };
        let secs = whole_seconds_of(now) as i64;
        let token_pair = match self.jwt_manager.generate_token_pair_at(self.users.value_at(i), remember, secs, session_id) {
            Ok(p) => p,
            Err(e) => {
                return Err(AuthError::InternalError(e));
            },
        };
        let session = UserSession {
            session_id: token_pair.session_id.clone(),
            user_id: user_id.clone(),
            created_at: now,
            last_activity: now,
            ip_address: copy_opt(&ip_address),
            user_agent: copy_opt(&user_agent),
            is_active: true,
        };
        self.active_sessions.insert(token_pair.session_id.clone(), session);
        self.refresh_tokens.insert(token_pair.refresh_token.clone(), user_id.clone());
        self.users.value_mut(i).update_last_login_at(now);
        let device = match &user_agent {
            Some(a) => a.as_str(),
            None => "",
        };
        self.rbac_engine.start_user_session_at(user_id.as_str(), token_pair.session_id.as_str(), ip_address, device, now);
        let info = self.users.value_at(i).to_user_info();
        Ok(
            LoginResponse {
                access_token: token_pair.access_token,
                refresh_token: token_pair.refresh_token,
                expires_in: token_pair.expires_in,
                user: info,
            },
        )
    }

    /// Logs in now, under a fresh random session id.
    pub fn login(&mut self, request: LoginRequest, ip_address: Option<String>, user_agent: Option<String>) -> (r:
        Result<LoginResponse, AuthError>)
        ensures
            (exists|t: i128, sid: Seq<char>|
                #![trigger login_outcome(*old(self), *final(self), r, request, ip_address, user_agent, t, sid)]
                valid_login_time(t as int) && login_outcome(
                    *old(self),
                    *final(self),
                    r,
                    request,
                    ip_address,
                    user_agent,
                    t,
                    sid,
                )) || (r matches Err(AuthError::InternalError(m)) && m@ == "Time out of range"@ && *final(self)
                == *old(self)),
    {
        let t = now();
        if t > MAX_INSTANT - LOCKOUT_MINUTES as i128 * NANOS_PER_MINUTE {
            return Err(AuthError::InternalError(owned("Time out of range")));
        }
        let secs = whole_seconds_of(t);
        if secs < MIN_SECONDS as i128 || secs > (MAX_SECONDS - LONGEST_TOKEN_LIFETIME) as i128 {
            return Err(AuthError::InternalError(owned("Time out of range")));
        }
        let sid = new_uuid();
        let ghost sid_view = sid@;
        let r = self.login_at(request, ip_address, user_agent, t, sid);
        assert(login_outcome(*old(self), *self, r, request, ip_address, user_agent, t, sid_view));
        r
    }

    /// Trades refresh token `request.refresh_token` for a new pair issued at `now`
    /// under session id `session_id`: the old refresh token is dropped, the new one
    /// belongs to the same user, and a session is opened for the new pair.
    pub fn refresh_token_at(&mut self, request: RefreshTokenRequest, now: i128, session_id: String) -> (r: Result<
        TokenPair,
        AuthError,
    >)
        requires
            valid_login_time(now as int),
        ensures
            refresh_outcome(*old(self), *final(self), r, request.refresh_token@, now, session_id@),
    {
        let user_id = match self.refresh_tokens.get(request.refresh_token.as_str()) {
            Some(u) => u.clone(),
            None => {
                return Err(AuthError::TokenInvalid);
            },
        };
        let iat = whole_seconds_of(now) as i64;
        let pair = match self.users.get(user_id.as_str()) {
            None => {
                return Err(AuthError::UserNotFound);
            },
            Some(user) => {
                if !user.is_active {
                    return Err(AuthError::UserInactive);
                }
                match self.jwt_manager.refresh_access_token_at(user, request.refresh_token.as_str(), iat, session_id) {
                    Ok(p) => p,
                    Err(e) => {
                        return Err(AuthError::InternalError(e));
                    },
                }
            },
        };
        self.refresh_tokens.remove(request.refresh_token.as_str());
        self.refresh_tokens.insert(pair.refresh_token.clone(), user_id.clone());
        let session = UserSession {
            session_id: pair.session_id.clone(),
            user_id,
            created_at: now,
            last_activity: now,
            ip_address: None,
            user_agent: None,
            is_active: true,
        };
        self.active_sessions.insert(pair.session_id.clone(), session);
        Ok(pair)
    }

    /// Trades a refresh token for a new pair issued now, under a fresh session id.
    pub fn refresh_token(&mut self, request: RefreshTokenRequest) -> (r: Result<TokenPair, AuthError>)
        ensures
            (exists|t: i128, sid: Seq<char>|
                #![trigger refresh_outcome(*old(self), *final(self), r, request.refresh_token@, t, sid)]
                valid_login_time(t as int) && refresh_outcome(
                    *old(self),
                    *final(self),
                    r,
                    request.refresh_token@,
                    t,
                    sid,
                )) || (r matches Err(AuthError::InternalError(m)) && m@ == "Time out of range"@ && *final(self)
                == *old(self)),
    {
        let t = now();
        if t > MAX_INSTANT - LOCKOUT_MINUTES as i128 * NANOS_PER_MINUTE {
            return Err(AuthError::InternalError(owned("Time out of range")));
        }
        let secs = whole_seconds_of(t);
        if secs < MIN_SECONDS as i128 || secs > (MAX_SECONDS - LONGEST_TOKEN_LIFETIME) as i128 {
            return Err(AuthError::InternalError(owned("Time out of range")));
        }
        let sid = new_uuid();
        let ghost sid_view = sid@;
        let ghost tok = request.refresh_token@;
        let r = self.refresh_token_at(request, t, sid);
        assert(refresh_outcome(*old(self), *self, r, tok, t, sid_view));
        r
    }

    /// Drops every refresh token of `user_id`.
    fn remove_refresh_tokens_of(&mut self, user_id: &str)
        ensures
            final(self).refresh_table().pairs() == tokens_not_of(old(self).refresh_table().pairs(), user_id@),
            final(self).user_table() == old(self).user_table(),
            final(self).session_table() == old(self).session_table(),
            final(self).reset_table() == old(self).reset_table(),
            final(self).rbac() == old(self).rbac(),
            final(self).jwt_manager == old(self).jwt_manager,
    {
        let mut taken_out: StrMap<String> = StrMap::new();
        std::mem::swap(&mut taken_out, &mut self.refresh_tokens);
        let entries = taken_out.into_pairs();
        let ghost all = entries@;
        let mut kept: Vec<(String, String)> = Vec::new();
        let mut i: usize = 0;
        while i < entries.len()
            invariant
                entries@ == all,
                i <= all.len(),
                kept@ == tokens_not_of(all.take(i as int), user_id@),
            decreases all.len() - i,
        {
            assert(all.take(i + 1).drop_last() =~= all.take(i as int));
            let e = &entries[i];
            if !str_eq(e.1.as_str(), user_id) {
                kept.push((e.0.clone(), e.1.clone()));
            }
            i = i + 1;
        }
        assert(all.take(all.len() as int) =~= all);
        self.refresh_tokens = StrMap::from_pairs(kept);
    }

    /// Ends session `session_id` and drops every refresh token of its user.
    pub fn logout(&mut self, session_id: &str) -> (r: Result<(), AuthError>)
        ensures
            match old(self).session_table().lookup(session_id@) {
                None => r == Err::<(), AuthError>(AuthError::SessionInvalid) && *final(self) == *old(self),
                Some(se) => {
                    &&& r is Ok
                    &&& final(self).session_table().pairs() == without(old(self).session_table().pairs(), session_id@)
                    &&& final(self).refresh_table().pairs() == tokens_not_of(
                        old(self).refresh_table().pairs(),
                        se.user_id@,
                    )
                    &&& final(self).user_table() == old(self).user_table()
                    &&& final(self).reset_table() == old(self).reset_table()
                    &&& final(self).rbac() == old(self).rbac()
                },
            },
    {
        if !self.active_sessions.contains_key(session_id) {
            proof {
                lemma_lookup_some(self.active_sessions.pairs(), session_id@);
            }
            return Err(AuthError::SessionInvalid);
        }
        match self.active_sessions.remove(session_id) {
            Some(session) => {
                self.remove_refresh_tokens_of(session.user_id.as_str());
                Ok(())
            },
            None => {
                proof {
                    lemma_lookup_some(old(self).active_sessions.pairs(), session_id@);
                }
                Ok(())
            },
        }
    }

    /// The account that a token with these claims opens at `now`.
    pub fn authorize_claims_at(&self, claims: &AccessTokenClaims, now: i128) -> (r: Result<UserInfo, AuthError>)
        requires
            valid_instant(now as int),
        ensures
            match r {
                Ok(info) => session_verdict(*self, claims@, now as int) matches Ok(u) && shows(info, u),
                Err(e) => session_verdict(*self, claims@, now as int) == Err::<User, AuthError>(e),
            },
    {
        match self.active_sessions.get(claims.session_id.as_str()) {
            Some(session) => {
                if !session.is_active {
                    return Err(AuthError::SessionExpired);
                }
                if session.last_activity < now - SESSION_IDLE_LIMIT {
                    return Err(AuthError::SessionExpired);
                }
            },
            None => {
                return Err(AuthError::SessionInvalid);
            },
        }
        match self.users.get(claims.sub.as_str()) {
            Some(user) => {
                if !user.is_active {
                    return Err(AuthError::UserInactive);
                }
                Ok(user.to_user_info())
            },
            None => Err(AuthError::UserNotFound),
        }
    }

    /// The account that access token `token` opens at `now`. A token that does not
    /// check out is invalid.
    pub fn verify_token_at(&self, token: &str, now: i128) -> (r: Result<UserInfo, AuthError>)
        requires
            valid_instant(now as int),
        ensures
            token_verification(*self, token@, now as int, r),
    {
        let claims = match self.jwt_manager.verify_access_token(token) {
            Ok(c) => c,
            Err(_) => {
                return Err(AuthError::TokenInvalid);
            },
        };
        self.authorize_claims_at(&claims, now)
    }

    /// The account that access token `token` opens now.
    pub fn verify_token(&self, token: &str) -> (r: Result<UserInfo, AuthError>)
        ensures
            exists|t: int| valid_instant(t) && #[trigger] token_verification(*self, token@, t, r),
    {
        let t = now();
        let r = self.verify_token_at(token, t);
        assert(token_verification(*self, token@, t as int, r));
        r
    }

    /// Changes the password of `user_id` at `now`, once the current one is given; the
    /// new one must be strong.
    pub fn change_password_at(&mut self, user_id: &str, request: ChangePasswordRequest, now: i128) -> (r: Result<
        (),
        AuthError,
    >)
        requires
            valid_instant(now as int),
            valid_instant(now + PASSWORD_LIFETIME),
        ensures
            change_outcome(*old(self), *final(self), r, user_id@, request, now),
    {
        if !self.is_strong_password(request.new_password.as_str()) {
            return Err(AuthError::WeakPassword);
        }
        let i = match self.users.find(user_id) {
            Some(i) => i,
            None => {
                return Err(AuthError::UserNotFound);
            },
        };
        proof {
            lemma_first_unique(self.users.pairs(), user_id@, i as int);
        }
        if !self.users.value_at(i).verify_password(request.current_password.as_str()) {
            return Err(AuthError::InvalidCredentials);
        }
        let ghost before = self.users.pairs();
        let user = self.users.value_mut(i);
        match user.update_password_at(request.new_password.as_str(), now) {
            Ok(()) => Ok(()),
            Err(e) => {
                assert(self.users.pairs() =~= before);
                Err(AuthError::InternalError(e))
            },
        }
    }

    /// Changes the password of `user_id` now.
    pub fn change_password(&mut self, user_id: &str, request: ChangePasswordRequest) -> (r: Result<(), AuthError>)
        ensures
            (exists|t: i128|
                #![trigger change_outcome(*old(self), *final(self), r, user_id@, request, t)]
                valid_instant(t as int) && change_outcome(*old(self), *final(self), r, user_id@, request, t)) || (
            r matches Err(AuthError::InternalError(m)) && m@ == "Time out of range"@ && *final(self) == *old(self)),
    {
        let t = now();
        if t > MAX_INSTANT - PASSWORD_LIFETIME {
            return Err(AuthError::InternalError(owned("Time out of range")));
        }
        self.change_password_at(user_id, request, t)
    }

    /// Hands out a password-reset token, valid for an hour from `now`, for the first
    /// account with the given e-mail address.
    pub fn request_password_reset_at(&mut self, request: ResetPasswordRequest, now: i128) -> (r: Result<
        String,
        AuthError,
    >)
        requires
            valid_instant(now as int),
            valid_instant(now + RESET_TOKEN_LIFETIME),
            valid_issue_second(whole_seconds(now as int)),
        ensures
            reset_request_outcome(*old(self), *final(self), r, request.email@, now),
    {
        let i = match self.find_user_by_email(request.email.as_str()) {
            Some(i) => i,
            None => {
                return Err(AuthError::UserNotFound);
            },
        };
        let user_id = self.users.value_at(i).id.clone();
        let secs = whole_seconds_of(now) as i64;
        let token = match self.jwt_manager.create_password_reset_token_at(user_id.as_str(), secs) {
            Ok(t) => t,
            Err(e) => {
                return Err(AuthError::InternalError(e));
            },
        };
        let info = PasswordResetToken {
            token: token.clone(),
            user_id,
            created_at: now,
            expires_at: now + RESET_TOKEN_LIFETIME,
            is_used: false,
        };
        self.password_reset_tokens.insert(token.clone(), info);
        Ok(token)
    }

    /// Hands out a password-reset token, valid for an hour from now.
    pub fn request_password_reset(&mut self, request: ResetPasswordRequest) -> (r: Result<String, AuthError>)
        ensures
            (exists|t: i128|
                #![trigger reset_request_outcome(*old(self), *final(self), r, request.email@, t)]
                valid_instant(t as int) && reset_request_outcome(*old(self), *final(self), r, request.email@, t)) || (
            r matches Err(AuthError::InternalError(m)) && m@ == "Time out of range"@ && *final(self) == *old(self)),
    {
        let t = now();
        let secs = whole_seconds_of(t);
        if t > MAX_INSTANT - RESET_TOKEN_LIFETIME || secs < MIN_SECONDS as i128 || secs > (MAX_SECONDS
            - LONGEST_TOKEN_LIFETIME) as i128 {
            return Err(AuthError::InternalError(owned("Time out of range")));
        }
        let ghost email = request.email@;
        let r = self.request_password_reset_at(request, t);
        assert(reset_request_outcome(*old(self), *self, r, email, t));
        r
    }

    /// Marks every session of `user_id` inactive and drops its refresh tokens.
    pub fn invalidate_user_sessions(&mut self, user_id: &str)
        ensures
            final(self).session_table().pairs() == deactivated(old(self).session_table().pairs(), user_id@),
            final(self).refresh_table().pairs() == tokens_not_of(old(self).refresh_table().pairs(), user_id@),
            final(self).user_table() == old(self).user_table(),
            final(self).reset_table() == old(self).reset_table(),
            final(self).rbac() == old(self).rbac(),
    {
        let ghost all = self.active_sessions.pairs();
        let mut i: usize = 0;
        while i < self.active_sessions.len()
            invariant
                self.active_sessions.pairs().len() == all.len(),
                i <= all.len(),
                forall|j: int| 0 <= j < i ==> #[trigger] self.active_sessions.pairs()[j] == deactivated(all, user_id@)[j],
                forall|j: int| i <= j < all.len() ==> #[trigger] self.active_sessions.pairs()[j] == all[j],
                all == old(self).active_sessions.pairs(),
                self.users == old(self).users,
                self.refresh_tokens == old(self).refresh_tokens,
                self.password_reset_tokens == old(self).password_reset_tokens,
                self.rbac_engine == old(self).rbac_engine,
                self.jwt_manager == old(self).jwt_manager,
            decreases all.len() - i,
        {
            if str_eq(self.active_sessions.value_at(i).user_id.as_str(), user_id) {
                let s = self.active_sessions.value_mut(i);
                s.is_active = false;
            }
            i = i + 1;
        }
        assert(self.active_sessions.pairs() =~= deactivated(all, user_id@));
        self.remove_refresh_tokens_of(user_id);
    }

    /// What a password reset with token `token` for `user_id` to `new_password` at `now`
    /// does, once the token's signature has been checked: the token must have been
    /// handed out, unused and unexpired, and the account must exist. The password is
    /// changed, the token is used up, and every session of the account ends.
    pub fn apply_password_reset_at(&mut self, token: &str, user_id: &str, new_password: &str, now: i128) -> (r:
        Result<(), AuthError>)
        requires
            valid_instant(now as int),
            valid_instant(now + PASSWORD_LIFETIME),
        ensures
            match reset_refusal(*old(self), token@, user_id@, new_password@, now as int) {
                Some(e) => r == Err::<(), AuthError>(e) && *final(self) == *old(self),
                None => match r {
                    Ok(()) => reset_applied(*old(self), *final(self), token@, user_id@, new_password@, now as int),
                    Err(e) => (e matches AuthError::InternalError(m) && m@ == "Failed to hash password"@)
                        && tables_unchanged(*old(self), *final(self)),
                },
            },
    {
        if !self.is_strong_password(new_password) {
            return Err(AuthError::WeakPassword);
        }
        let ti = match self.password_reset_tokens.find(token) {
            Some(i) => i,
            None => {
                proof {
                    lemma_lookup_absent(self.password_reset_tokens.pairs(), token@);
                }
                return Err(AuthError::TokenInvalid);
            },
        };
        proof {
            lemma_lookup_first(self.password_reset_tokens.pairs(), token@, ti as int);
        }
        if self.password_reset_tokens.value_at(ti).is_used {
            return Err(AuthError::TokenInvalid);
        }
        if now > self.password_reset_tokens.value_at(ti).expires_at {
            return Err(AuthError::TokenExpired);
        }
        let ui = match self.users.find(user_id) {
            Some(i) => i,
            None => {
                proof {
                    lemma_lookup_absent(self.users.pairs(), user_id@);
                }
                return Err(AuthError::UserNotFound);
            },
        };
        proof {
            lemma_lookup_first(self.users.pairs(), user_id@, ui as int);
        }
        let ghost before = self.users.pairs();
        let user = self.users.value_mut(ui);
        match user.update_password_at(new_password, now) {
            Ok(()) => {},
            Err(e) => {
                assert(self.users.pairs() =~= before);
                return Err(AuthError::InternalError(e));
            },
        }
        proof {
            lemma_lookup_update(before, user_id@, ui as int, before[ui as int].0, self.users.pairs()[ui as int].1);
        }
        let ghost tokens_before = self.password_reset_tokens.pairs();
        let t = self.password_reset_tokens.value_mut(ti);
        t.is_used = true;
        proof {
            lemma_lookup_update(
                tokens_before,
                token@,
                ti as int,
                tokens_before[ti as int].0,
                self.password_reset_tokens.pairs()[ti as int].1,
            );
        }
        self.invalidate_user_sessions(user_id);
        Ok(())
    }

    /// Resets a password at `now` with a password-reset token. A token that does not
    /// check out is invalid; so is one that the token library refuses (a bad
    /// signature, or one that has expired by the clock).
    pub fn reset_password_at(&mut self, token: &str, new_password: &str, now: i128) -> (r: Result<(), AuthError>)
        requires
            valid_instant(now as int),
            valid_instant(now + PASSWORD_LIFETIME),
        ensures
            reset_outcome(*old(self), *final(self), r, token@, new_password@, now as int),
    {
        let user_id = match self.jwt_manager.verify_password_reset_token(token) {
            Ok(u) => u,
            Err(_) => {
                return Err(AuthError::TokenInvalid);
            },
        };
        self.apply_password_reset_at(token, user_id.as_str(), new_password, now)
    }

    /// Resets a password now with a password-reset token.
    pub fn reset_password(&mut self, token: &str, new_password: &str) -> (r: Result<(), AuthError>)
        ensures
            (r matches Err(AuthError::InternalError(m)) && m@ == "Time out of range"@ && *final(self) == *old(self))
                || exists|t: int|
                valid_instant(t) && #[trigger] reset_outcome(*old(self), *final(self), r, token@, new_password@, t),
    {
        let t = now();
        if t > MAX_INSTANT - PASSWORD_LIFETIME {
            return Err(AuthError::InternalError(owned("Time out of range")));
        }
        let r = self.reset_password_at(token, new_password, t);
        assert(reset_outcome(*old(self), *self, r, token@, new_password@, t as int));
        r
    }

    /// The active sessions of `user_id`, in order.
    pub fn get_user_sessions(&self, user_id: &str) -> (r: Vec<&UserSession>)
        ensures
            r@.map_values(|x: &UserSession| *x) == active_sessions_of(self.session_table().pairs(), user_id@),
    {
        let ghost all = self.active_sessions.pairs();
        let mut out: Vec<&UserSession> = Vec::new();
        let mut i: usize = 0;
        while i < self.active_sessions.len()
            invariant
                all == self.active_sessions.pairs(),
                i <= all.len(),
                out@.map_values(|x: &UserSession| *x) == active_sessions_of(all.take(i as int), user_id@),
            decreases all.len() - i,
        {
            assert(all.take(i + 1).drop_last() =~= all.take(i as int));
            let s = self.active_sessions.value_at(i);
            if str_eq(s.user_id.as_str(), user_id) && s.is_active {
                out.push(s);
            }
            i = i + 1;
        }
        assert(all.take(all.len() as int) =~= all);
        out
    }

    /// Marks activity at `now` on session `session_id`; nothing changes when there is
    /// no such session.
    pub fn update_session_activity_at(&mut self, session_id: &str, now: i128)
        ensures
            match old(self).session_table().lookup(session_id@) {
                None => *final(self) == *old(self),
                Some(se) => {
                    &&& forall|k: Seq<char>| #[trigger] final(self).session_table().lookup(k) == if k == session_id@ {
                        Some(UserSession { last_activity: now, ..se })
                    } else {
                        old(self).session_table().lookup(k)
                    }
                    &&& final(self).user_table() == old(self).user_table()
                    &&& final(self).refresh_table() == old(self).refresh_table()
                    &&& final(self).reset_table() == old(self).reset_table()
                    &&& final(self).rbac() == old(self).rbac()
                },
            },
    {
        match self.active_sessions.find(session_id) {
            Some(i) => {
                proof {
                    lemma_lookup_first(self.active_sessions.pairs(), session_id@, i as int);
                }
                let ghost before = self.active_sessions.pairs();
                let s = self.active_sessions.value_mut(i);
                s.last_activity = now;
                proof {
                    lemma_lookup_update(
                        before,
                        session_id@,
                        i as int,
                        before[i as int].0,
                        self.active_sessions.pairs()[i as int].1,
                    );
                }
            },
            None => {
                proof {
                    lemma_lookup_absent(self.active_sessions.pairs(), session_id@);
                }
            },
        }
    }

    /// Marks activity now on session `session_id`.
    pub fn update_session_activity(&mut self, session_id: &str)
        ensures
            old(self).session_table().lookup(session_id@) is None ==> *final(self) == *old(self),
            old(self).session_table().lookup(session_id@) is Some ==> (final(self).session_table().lookup(
                session_id@,
            ) matches Some(s) && valid_instant(s.last_activity as int)),
    {
        let t = now();
        self.update_session_activity_at(session_id, t);
    }

    /// Drops, as of `now`, the sessions that are inactive or have sat idle for more
    /// than a day, and the reset tokens that are used or expired.
    pub fn cleanup_expired_at(&mut self, now: i128)
        requires
            valid_instant(now as int),
        ensures
            final(self).session_table().pairs() == live_sessions(old(self).session_table().pairs(), now as int),
            final(self).reset_table().pairs() == live_reset_tokens(old(self).reset_table().pairs(), now as int),
            final(self).user_table() == old(self).user_table(),
            final(self).refresh_table() == old(self).refresh_table(),
            final(self).rbac() == old(self).rbac(),
    {
        let mut sessions_out: StrMap<UserSession> = StrMap::new();
        std::mem::swap(&mut sessions_out, &mut self.active_sessions);
        let sessions = sessions_out.into_pairs();
        let ghost all = sessions@;
        let mut kept: Vec<(String, UserSession)> = Vec::new();
        let mut i: usize = 0;
        while i < sessions.len()
            invariant
                sessions@ == all,
                i <= all.len(),
                kept@ == live_sessions(all.take(i as int), now as int),
                valid_instant(now as int),
            decreases all.len() - i,
        {
            assert(all.take(i + 1).drop_last() =~= all.take(i as int));
            let e = &sessions[i];
            if e.1.is_active && e.1.last_activity >= now - SESSION_RETENTION {
                kept.push((e.0.clone(), e.1.clone_session()));
            }
            i = i + 1;
        }
        assert(all.take(all.len() as int) =~= all);
        self.active_sessions = StrMap::from_pairs(kept);
        let mut tokens_out: StrMap<PasswordResetToken> = StrMap::new();
        std::mem::swap(&mut tokens_out, &mut self.password_reset_tokens);
        let tokens = tokens_out.into_pairs();
        let ghost all_tokens = tokens@;
        let mut kept_tokens: Vec<(String, PasswordResetToken)> = Vec::new();
        let mut j: usize = 0;
        while j < tokens.len()
            invariant
                tokens@ == all_tokens,
                j <= all_tokens.len(),
                kept_tokens@ == live_reset_tokens(all_tokens.take(j as int), now as int),
            decreases all_tokens.len() - j,
        {
            assert(all_tokens.take(j + 1).drop_last() =~= all_tokens.take(j as int));
            let e = &tokens[j];
            if now <= e.1.expires_at && !e.1.is_used {
                kept_tokens.push((e.0.clone(), e.1.clone_token()));
            }
            j = j + 1;
        }
        assert(all_tokens.take(all_tokens.len() as int) =~= all_tokens);
        self.password_reset_tokens = StrMap::from_pairs(kept_tokens);
    }

    /// Drops the expired sessions and reset tokens as of now.
    pub fn cleanup_expired(&mut self)
        ensures
            exists|t: int|
                valid_instant(t) && final(self).session_table().pairs() == #[trigger] live_sessions(
                    old(self).session_table().pairs(),
                    t,
                ) && final(self).reset_table().pairs() == live_reset_tokens(old(self).reset_table().pairs(), t),
            final(self).user_table() == old(self).user_table(),
            final(self).refresh_table() == old(self).refresh_table(),
            final(self).rbac() == old(self).rbac(),
    {
        let t = now();
        self.cleanup_expired_at(t);
    }

    /// Decides, at `now`, whether a request for `path` with this `Authorization`
    /// header gets through. Paths under one of `skip_paths` need nothing; any other
    /// needs a `Bearer` token that opens an account, and its session's activity is then
    /// recorded.
    pub fn authenticate_at(&mut self, path: &str, skip_paths: &Vec<String>, auth_header: Option<&str>, now: i128) -> (r:
        AuthGate)
        requires
            valid_instant(now as int),
        ensures
            skipped_path(path@, skip_paths@) ==> r is Skipped && *final(self) == *old(self),
            !skipped_path(path@, skip_paths@) && auth_header is None ==> (r matches AuthGate::Rejected { error, message }
                && error@ == "Missing authorization header"@ && message@ == "Authorization header is required"@)
                && *final(self) == *old(self),
            !skipped_path(path@, skip_paths@) && (auth_header matches Some(h) && !has_prefix(h@, "Bearer "@)) ==> (
            r matches AuthGate::Rejected { error, message } && error@ == "Invalid authorization header"@ && message@
                == "Invalid authorization header format"@) && *final(self) == *old(self),
            !skipped_path(path@, skip_paths@) && (auth_header matches Some(h) && has_prefix(h@, "Bearer "@)
                && trim_start_pattern(h@, "Bearer "@).len() == 0) ==> (r matches AuthGate::Rejected { error, message }
                && error@ == "Invalid authorization header"@ && message@ == "Empty token"@) && *final(self) == *old(self),
            r is Rejected ==> *final(self) == *old(self),
            r matches AuthGate::Authenticated(info) ==> {
                &&& !skipped_path(path@, skip_paths@)
                &&& auth_header matches Some(h) && has_prefix(h@, "Bearer "@)
                &&& hs256_signed(trim_start_pattern(auth_header->0@, "Bearer "@), jwt_secret())
                &&& access_check(token_claims(trim_start_pattern(auth_header->0@, "Bearer "@))) matches Ok(v)
                    && session_verdict(*old(self), v, now as int) matches Ok(u) && shows(info, u)
                &&& final(self).session_table() == old(self).session_table() || activity_recorded(
                    old(self).session_table(),
                    final(self).session_table(),
                    access_check(token_claims(trim_start_pattern(auth_header->0@, "Bearer "@)))->Ok_0.session_id,
                    now,
                )
                &&& final(self).user_table() == old(self).user_table()
                &&& final(self).refresh_table() == old(self).refresh_table()
                &&& final(self).reset_table() == old(self).reset_table()
                &&& final(self).rbac() == old(self).rbac()
            },
            r is Skipped ==> skipped_path(path@, skip_paths@),
            (r matches AuthGate::Rejected { error, .. } && error@ == "Authentication failed"@) ==> {
                &&& auth_header matches Some(h) && has_prefix(h@, "Bearer "@)
                &&& r->message@ == AuthError::TokenInvalid.message() || (access_check(
                    token_claims(trim_start_pattern(auth_header->0@, "Bearer "@)),
                ) matches Ok(v) && session_verdict(*old(self), v, now as int) matches Err(e) && r->message@
                    == e.message())
            },
    {
        proof {
            reveal_strlit("Authentication failed");
            reveal_strlit("Missing authorization header");
            reveal_strlit("Invalid authorization header");
            assert("Authentication failed"@.len() != "Missing authorization header"@.len());
            assert("Authentication failed"@.len() != "Invalid authorization header"@.len());
        }
        let mut i: usize = 0;
        while i < skip_paths.len()
            invariant
                i <= skip_paths@.len(),
                forall|j: int| 0 <= j < i ==> !has_prefix(path@, (#[trigger] skip_paths@[j])@),
            decreases skip_paths@.len() - i,
        {
            if str_starts_with(path, skip_paths[i].as_str()) {
                return AuthGate::Skipped;
            }
            i = i + 1;
        }
        let header = match auth_header {
            Some(h) => h,
            None => {
                return AuthGate::Rejected {
                    error: owned("Missing authorization header"),
                    message: owned("Authorization header is required"),
                };
            },
        };
        let token = match self.jwt_manager.extract_token_from_header(header) {
            Ok(t) => t,
            Err(e) => {
                return AuthGate::Rejected { error: owned("Invalid authorization header"), message: e };
            },
        };
        match self.verify_token_at(token.as_str(), now) {
            Ok(info) => {
                if let Ok(claims) = self.jwt_manager.verify_access_token(token.as_str()) {
                    self.update_session_activity_at(claims.session_id.as_str(), now);
                }
                AuthGate::Authenticated(info)
            },
            Err(e) => AuthGate::Rejected { error: owned("Authentication failed"), message: e.to_string() },
        }
    }

    /// Decides, now, whether a request gets through.
    pub fn authenticate(&mut self, path: &str, skip_paths: &Vec<String>, auth_header: Option<&str>) -> (r: AuthGate)
        ensures
            skipped_path(path@, skip_paths@) ==> r is Skipped && *final(self) == *old(self),
            !skipped_path(path@, skip_paths@) && auth_header is None ==> (r matches AuthGate::Rejected { error, message }
                && error@ == "Missing authorization header"@ && message@ == "Authorization header is required"@)
                && *final(self) == *old(self),
            !skipped_path(path@, skip_paths@) && (auth_header matches Some(h) && !has_prefix(h@, "Bearer "@)) ==> (
            r matches AuthGate::Rejected { error, message } && error@ == "Invalid authorization header"@ && message@
                == "Invalid authorization header format"@) && *final(self) == *old(self),
            !skipped_path(path@, skip_paths@) && (auth_header matches Some(h) && has_prefix(h@, "Bearer "@)
                && trim_start_pattern(h@, "Bearer "@).len() == 0) ==> (r matches AuthGate::Rejected { error, message }
                && error@ == "Invalid authorization header"@ && message@ == "Empty token"@) && *final(self) == *old(self),
            r is Rejected ==> *final(self) == *old(self),
            r matches AuthGate::Authenticated(info) ==> {
                &&& !skipped_path(path@, skip_paths@)
                &&& auth_header matches Some(h) && has_prefix(h@, "Bearer "@)
                &&& hs256_signed(trim_start_pattern(auth_header->0@, "Bearer "@), jwt_secret())
                &&& access_check(token_claims(trim_start_pattern(auth_header->0@, "Bearer "@))) matches Ok(v)
                    && exists|t: int| valid_instant(t) && (#[trigger] session_verdict(*old(self), v, t) matches Ok(u)
                    && shows(info, u))
                &&& final(self).user_table() == old(self).user_table()
                &&& final(self).refresh_table() == old(self).refresh_table()
                &&& final(self).reset_table() == old(self).reset_table()
                &&& final(self).rbac() == old(self).rbac()
            },
            r is Skipped ==> skipped_path(path@, skip_paths@),
            (r matches AuthGate::Rejected { error, .. } && error@ == "Authentication failed"@) ==> {
                &&& auth_header matches Some(h) && has_prefix(h@, "Bearer "@)
                &&& r->message@ == AuthError::TokenInvalid.message() || (access_check(
                    token_claims(trim_start_pattern(auth_header->0@, "Bearer "@)),
                ) matches Ok(v) && exists|t: int|
                    valid_instant(t) && (#[trigger] session_verdict(*old(self), v, t) matches Err(e) && r->message@
                        == e.message()))
            },
    {
        let t = now();
        self.authenticate_at(path, skip_paths, auth_header, t)
    }

    /// Creates an account with a fresh random id, now.
    pub fn create_user(&mut self, request: CreateUserRequest) -> (r: Result<UserInfo, AuthError>)
        ensures
            exists|uid: Seq<char>, t: i128|
                #![trigger create_outcome(*old(self), *final(self), r, request, uid, t)]
                valid_instant(t as int) && create_outcome(*old(self), *final(self), r, request, uid, t),
    {
        let t = now();
        let id = new_uuid();
        let ghost id_view = id@;
        let r = self.create_user_at(request, id, t);
        assert(create_outcome(*old(self), *self, r, request, id_view, t));
        r
    }
}

} // verus!
