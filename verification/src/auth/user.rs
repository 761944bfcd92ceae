//! User accounts: passwords, lockout and profiles.
use vstd::prelude::*;

use crate::clock::{now, valid_instant, MAX_INSTANT, MIN_INSTANT, NANOS_PER_MINUTE};
use crate::dict::StrMap;
use crate::text::{copy_strings, owned};

verus! {

/// Failed logins that lock an account.
pub const MAX_FAILED_ATTEMPTS: u32 = 5;

/// How long a lockout lasts, in minutes.
pub const LOCKOUT_MINUTES: i64 = 30;

/// How long a new password stays valid: 90 days, in nanoseconds.
pub const PASSWORD_LIFETIME: i128 = 7_776_000_000_000_000;

/// Whether `bcrypt::verify` accepts a password for a hash: `Some(b)` for its answer,
/// `None` when it refuses the hash.
pub uninterp spec fn bcrypt_check(password: Seq<char>, hash: Seq<char>) -> Option<bool>;

/// Hashes a password with a fresh random salt.
///
/// Calls `bcrypt::hash` with `bcrypt::DEFAULT_COST`. The salt is random, so the hash
/// is not named; the contract states what the source shows of every hash it gives
/// back: `bcrypt::verify` re-hashes the password with the salt and cost written in
/// the hash and accepts it.
#[verifier::external_body]
fn hash_password(password: &str) -> (r: Result<String, String>)
    ensures
        r matches Ok(h) ==> bcrypt_check(password@, h@) == Some(true),
{
    bcrypt::hash(password, bcrypt::DEFAULT_COST).map_err(|e| e.to_string())
}

/// Checks a password against a hash.
///
/// Calls `bcrypt::verify`; the contract names its answer (`bcrypt_check`).
#[verifier::external_body]
fn bcrypt_verify(password: &str, hash: &str) -> (r: Option<bool>)
    ensures
        r == bcrypt_check(password@, hash@),
{
    match bcrypt::verify(password, hash) {
        Ok(b) => Some(b),
        Err(_) => None,
    }
}

/// A fresh random identifier.
///
/// Calls `uuid::Uuid::new_v4` and formats it; it is random, so nothing is stated of it.
#[verifier::external_body]
pub(crate) fn new_uuid() -> String {
    uuid::Uuid::new_v4().to_string()
}

/// A user account.
#[derive(Clone)]
pub struct User {
    pub id: String,
    pub username: String,
    pub email: String,
    pub password_hash: String,
    pub roles: Vec<String>,
    /// Instant (nanoseconds since the epoch).
    pub created_at: i128,
    pub last_login: Option<i128>,
    pub is_active: bool,
    pub failed_login_attempts: u32,
    /// The account is locked before this instant.
    pub locked_until: Option<i128>,
    pub must_change_password: bool,
    /// The password expires after this instant.
    pub password_expires_at: Option<i128>,
    pub profile: UserProfile,
}

/// Personal details of a user.
#[derive(Clone)]
pub struct UserProfile {
    pub first_name: String,
    pub last_name: String,
    pub department: Option<String>,
    pub phone: Option<String>,
    pub attributes: StrMap<String>,
}

/// A request to create a user.
#[derive(Clone)]
pub struct CreateUserRequest {
    pub username: String,
    pub email: String,
    pub password: String,
    pub roles: Vec<String>,
    pub profile: UserProfile,
}

/// A request to log in by user name or e-mail address.
#[derive(Clone)]
pub struct LoginRequest {
    pub username_or_email: String,
    pub password: String,
    pub remember_me: Option<bool>,
}

/// The answer to a successful login.
#[derive(Clone)]
pub struct LoginResponse {
    pub access_token: String,
    pub refresh_token: String,
    /// Lifetime of the access token, in seconds.
    pub expires_in: i64,
    pub user: UserInfo,
}

/// What may be shown of a user.
#[derive(Clone)]
pub struct UserInfo {
    pub id: String,
    pub username: String,
    pub email: String,
    pub roles: Vec<String>,
    pub profile: UserProfile,
}

/// A request for new tokens.
#[derive(Clone)]
pub struct RefreshTokenRequest {
    pub refresh_token: String,
}

/// A request to change one's password.
#[derive(Clone)]
pub struct ChangePasswordRequest {
    pub current_password: String,
    pub new_password: String,
}

/// A request to reset a forgotten password.
#[derive(Clone)]
pub struct ResetPasswordRequest {
    pub email: String,
}

/// Two profiles hold the same details.
pub open spec fn same_profile(a: UserProfile, b: UserProfile) -> bool {
    &&& a.first_name@ == b.first_name@
    &&& a.last_name@ == b.last_name@
    &&& a.department == b.department
    &&& a.phone == b.phone
    &&& a.attributes.pairs() == b.attributes.pairs()
}

impl UserProfile {
    /// A copy of this profile.
    pub fn copy(&self) -> (r: UserProfile)
        ensures
            same_profile(r, *self),
    {
        UserProfile {
            first_name: self.first_name.clone(),
            last_name: self.last_name.clone(),
            department: match &self.department {
                Some(d) => Some(d.clone()),
                None => None,
            },
            phone: match &self.phone {
                Some(p) => Some(p.clone()),
                None => None,
            },
            attributes: self.attributes.copy(),
        }
    }
}

/// What setting a new password when the clock reads `now` does, from `u0` to `u1`
/// with answer `r`: it is refused when the password would expire outside the
/// calendar; otherwise the new password opens the account, need not be changed and
/// expires 90 days later, unless hashing fails, which changes nothing.
pub open spec fn password_update(u0: User, u1: User, r: Result<(), String>, password: Seq<char>, now: i128) -> bool {
    &&& valid_instant(now as int)
    &&& if now + PASSWORD_LIFETIME <= MAX_INSTANT {
        match r {
            Ok(()) => {
                &&& u1.accepts(password)
                &&& u1 == (User {
                    password_hash: u1.password_hash,
                    must_change_password: false,
                    password_expires_at: Some((now + PASSWORD_LIFETIME) as i128),
                    ..u0
                })
            },
            Err(msg) => msg@ == "Failed to hash password"@ && u1 == u0,
        }
    } else {
        (r matches Err(msg) && msg@ == "Password expiry out of range"@) && u1 == u0
    }
}

/// What locking an account for `minutes` when the clock reads `now` does, from `u0`
/// to `u1`: the account is locked until `minutes` after `now`, or left as it was when
/// that instant lies outside the calendar.
pub open spec fn account_lock(u0: User, u1: User, minutes: i64, now: i128) -> bool {
    &&& valid_instant(now as int)
    &&& if valid_instant(now + minutes * NANOS_PER_MINUTE) {
        u1 == (User { locked_until: Some((now + minutes * NANOS_PER_MINUTE) as i128), ..u0 })
    } else {
        u1 == u0
    }
}

/// `u` is a fresh account made from `request` at `now`.
pub open spec fn fresh_user(u: User, request: CreateUserRequest, now: int) -> bool {
    &&& u.username == request.username
    &&& u.email == request.email
    &&& u.roles == request.roles
    &&& u.profile == request.profile
    &&& u.created_at == now
    &&& u.last_login is None
    &&& u.is_active
    &&& u.failed_login_attempts == 0
    &&& u.locked_until is None
    &&& !u.must_change_password
    &&& u.password_expires_at is None
}

impl User {
    /// The password `password` opens this account.
    pub open spec fn accepts(&self, password: Seq<char>) -> bool {
        bcrypt_check(password, self.password_hash@) == Some(true)
    }

    /// The account is locked at `now`.
    pub open spec fn locked_at(&self, now: int) -> bool {
        self.locked_until matches Some(l) && now < l
    }

    /// The password has expired at `now`.
    pub open spec fn password_expired_at(&self, now: int) -> bool {
        self.password_expires_at matches Some(e) && now > e
    }

    /// A new active account with a random id, the password hashed, created now.
    pub fn new(request: CreateUserRequest) -> (r: Result<User, String>)
        ensures
            match r {
                Ok(u) => exists|t: int| valid_instant(t) && fresh_user(u, request, t) && u.accepts(request.password@),
                Err(msg) => msg@ == "Failed to hash password"@,
            },
    {
        let t = now();
        User::new_at(request, new_uuid(), t)
    }

    /// A new active account with id `id` and the password hashed, created at `now`.
    pub fn new_at(request: CreateUserRequest, id: String, now: i128) -> (r: Result<User, String>)
        ensures
            match r {
                Ok(u) => fresh_user(u, request, now as int) && u.id == id && u.accepts(request.password@),
                Err(msg) => msg@ == "Failed to hash password"@,
            },
    {
        let password_hash = match hash_password(request.password.as_str()) {
            Ok(h) => h,
            Err(_) => {
                return Err(owned("Failed to hash password"));
            },
        };
        Ok(User::from_request(request, id, password_hash, now))
    }

    /// A new active account with the given id and password hash, created at `now`.
    pub fn from_request(request: CreateUserRequest, id: String, password_hash: String, now: i128) -> (u: User)
        ensures
            fresh_user(u, request, now as int),
            u.id == id,
            u.password_hash == password_hash,
    {
        User {
            id,
            username: request.username,
            email: request.email,
            password_hash,
            roles: request.roles,
            created_at: now,
            last_login: None,
            is_active: true,
            failed_login_attempts: 0,
            locked_until: None,
            must_change_password: false,
            password_expires_at: None,
            profile: request.profile,
        }
    }

    /// The password opens this account; a hash that bcrypt refuses opens nothing.
    pub fn verify_password(&self, password: &str) -> (r: bool)
        ensures
            r == self.accepts(password@),
    {
        match bcrypt_verify(password, self.password_hash.as_str()) {
            Some(b) => b,
            None => false,
        }
    }

    /// Sets a new password at `now`: it need not be changed and expires in 90 days.
    /// When hashing fails nothing changes.
    pub fn update_password_at(&mut self, new_password: &str, now: i128) -> (r: Result<(), String>)
        requires
            valid_instant(now as int),
            valid_instant(now + PASSWORD_LIFETIME),
        ensures
            match r {
                Ok(()) => {
                    &&& final(self).accepts(new_password@)
                    &&& !final(self).must_change_password
                    &&& final(self).password_expires_at == Some((now + PASSWORD_LIFETIME) as i128)
                    &&& *final(self) == (User {
                        password_hash: final(self).password_hash,
                        must_change_password: false,
                        password_expires_at: Some((now + PASSWORD_LIFETIME) as i128),
                        ..*old(self)
                    })
                },
                Err(msg) => msg@ == "Failed to hash password"@ && *final(self) == *old(self),
            },
    {
        let h = match hash_password(new_password) {
            Ok(h) => h,
            Err(_) => {
                return Err(owned("Failed to hash password"));
            },
        };
        self.password_hash = h;
        self.must_change_password = false;
        self.password_expires_at = Some(now + PASSWORD_LIFETIME);
        Ok(())
    }

    /// Sets a new password now.
    pub fn update_password(&mut self, new_password: &str) -> (r: Result<(), String>)
        ensures
            exists|t: i128| #[trigger] password_update(*old(self), *final(self), r, new_password@, t),
    {
        let t = now();
        if t > MAX_INSTANT - PASSWORD_LIFETIME {
            let r = Err(owned("Password expiry out of range"));
            assert(password_update(*old(self), *self, r, new_password@, t));
            return r;
        }
        let r = self.update_password_at(new_password, t);
        assert(password_update(*old(self), *self, r, new_password@, t));
        r
    }

    /// The account is locked at `now`.
    pub fn is_locked_at(&self, now: i128) -> (r: bool)
        ensures
            r == self.locked_at(now as int),
    {
        match self.locked_until {
            Some(l) => now < l,
            None => false,
        }
    }

    /// The account is locked now.
    pub fn is_locked(&self) -> (r: bool)
        ensures
            exists|t: int| valid_instant(t) && r == self.locked_at(t),
    {
        let t = now();
        self.is_locked_at(t)
    }

    /// Locks the account for `duration_minutes` from `now`.
    pub fn lock_account_at(&mut self, duration_minutes: i64, now: i128)
        requires
            -153_722_867_280_912 <= duration_minutes <= 153_722_867_280_912,
            valid_instant(now + duration_minutes * NANOS_PER_MINUTE),
        ensures
            *final(self) == (User { locked_until: Some((now + duration_minutes * NANOS_PER_MINUTE) as i128), ..*old(self) }),
    {
        self.locked_until = Some(now + duration_minutes as i128 * NANOS_PER_MINUTE);
    }

    /// Locks the account for `duration_minutes` from now. Nothing changes when the
    /// lock would end outside the calendar.
    pub fn lock_account(&mut self, duration_minutes: i64)
        requires
            -153_722_867_280_912 <= duration_minutes <= 153_722_867_280_912,
        ensures
            exists|t: i128| #[trigger] account_lock(*old(self), *final(self), duration_minutes, t),
    {
        let t = now();
        let end = t + duration_minutes as i128 * NANOS_PER_MINUTE;
        if MIN_INSTANT <= end && end <= MAX_INSTANT {
            self.lock_account_at(duration_minutes, t);
        }
        assert(account_lock(*old(self), *self, duration_minutes, t));
    }

    /// Lifts a lock and forgets failed logins.
    pub fn unlock_account(&mut self)
        ensures
            *final(self) == (User { locked_until: None, failed_login_attempts: 0, ..*old(self) }),
    {
        self.locked_until = None;
        self.failed_login_attempts = 0;
    }

    /// Counts a failed login at `now`; the fifth and every later one locks the account
    /// for 30 minutes.
    pub fn increment_failed_attempts_at(&mut self, now: i128)
        requires
            old(self).failed_login_attempts < u32::MAX,
            valid_instant(now as int),
            valid_instant(now + LOCKOUT_MINUTES * NANOS_PER_MINUTE),
        ensures
            final(self).failed_login_attempts == old(self).failed_login_attempts + 1,
            final(self).locked_until == if final(self).failed_login_attempts >= MAX_FAILED_ATTEMPTS {
                Some((now + LOCKOUT_MINUTES * NANOS_PER_MINUTE) as i128)
            } else {
                old(self).locked_until
            },
            *final(self) == (User {
                failed_login_attempts: final(self).failed_login_attempts,
                locked_until: final(self).locked_until,
                ..*old(self)
            }),
    {
        self.failed_login_attempts = self.failed_login_attempts + 1;
        if self.failed_login_attempts >= MAX_FAILED_ATTEMPTS {
            self.lock_account_at(LOCKOUT_MINUTES, now);
        }
    }

    /// Counts a failed login now.
    pub fn increment_failed_attempts(&mut self)
        requires
            old(self).failed_login_attempts < u32::MAX,
        ensures
            final(self).failed_login_attempts == old(self).failed_login_attempts + 1,
            final(self).failed_login_attempts >= MAX_FAILED_ATTEMPTS ==> final(self).locked_until is Some,
            *final(self) == (User {
                failed_login_attempts: final(self).failed_login_attempts,
                locked_until: final(self).locked_until,
                ..*old(self)
            }),
    {
        let t = now();
        if t > MAX_INSTANT - LOCKOUT_MINUTES as i128 * NANOS_PER_MINUTE {
            self.failed_login_attempts = self.failed_login_attempts + 1;
            self.locked_until = Some(MAX_INSTANT);
            return;
        }
        self.increment_failed_attempts_at(t);
    }

    /// Forgets failed logins and lifts a lock.
    pub fn reset_failed_attempts(&mut self)
        ensures
            *final(self) == (User { locked_until: None, failed_login_attempts: 0, ..*old(self) }),
    {
        self.failed_login_attempts = 0;
        self.locked_until = None;
    }

    /// Records a login at `now`, which also forgets failed logins and lifts a lock.
    pub fn update_last_login_at(&mut self, now: i128)
        ensures
            *final(self) == (User { last_login: Some(now), locked_until: None, failed_login_attempts: 0, ..*old(self) }),
    {
        self.last_login = Some(now);
        self.reset_failed_attempts();
    }

    /// Records a login now.
    pub fn update_last_login(&mut self)
        ensures
            final(self).last_login is Some,
            *final(self) == (User { last_login: final(self).last_login, locked_until: None, failed_login_attempts: 0, ..*old(self) }),
    {
        let t = now();
        self.update_last_login_at(t);
    }

    /// What may be shown of this user.
    pub fn to_user_info(&self) -> (r: UserInfo)
        ensures
            r.id@ == self.id@,
            r.username@ == self.username@,
            r.email@ == self.email@,
            r.roles@ == self.roles@,
            same_profile(r.profile, self.profile),
    {
        UserInfo {
            id: self.id.clone(),
            username: self.username.clone(),
            email: self.email.clone(),
            roles: copy_strings(&self.roles),
            profile: self.profile.copy(),
        }
    }

    /// The password has expired at `now`.
    pub fn is_password_expired_at(&self, now: i128) -> (r: bool)
        ensures
            r == self.password_expired_at(now as int),
    {
        match self.password_expires_at {
            Some(e) => now > e,
            None => false,
        }
    }

    /// The password has expired now.
    pub fn is_password_expired(&self) -> (r: bool)
        ensures
            exists|t: int| valid_instant(t) && r == self.password_expired_at(t),
    {
        let t = now();
        self.is_password_expired_at(t)
    }
}

} // verus!
