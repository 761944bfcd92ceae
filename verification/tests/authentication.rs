use hybrid_rbac_abac::auth::jwt::{AccessTokenClaims, JwtManager, RefreshTokenClaims};
use hybrid_rbac_abac::auth::service::{AuthError, AuthGate, AuthService};
use hybrid_rbac_abac::auth::user::{
    ChangePasswordRequest, CreateUserRequest, LoginRequest, RefreshTokenRequest, ResetPasswordRequest, User,
    UserProfile,
};
use hybrid_rbac_abac::dict::StrMap;
use hybrid_rbac_abac::rbac::engine::RbacEngine;

const T0: i128 = 1_700_000_000_000_000_000;
const MINUTE: i128 = 60_000_000_000;

fn profile() -> UserProfile {
    UserProfile {
        first_name: "Alice".to_string(),
        last_name: "Smith".to_string(),
        department: Some("engineering".to_string()),
        phone: None,
        attributes: StrMap::new(),
    }
}

fn request(username: &str, email: &str, password: &str) -> CreateUserRequest {
    CreateUserRequest {
        username: username.to_string(),
        email: email.to_string(),
        password: password.to_string(),
        roles: vec!["user".to_string(), "editor".to_string()],
        profile: profile(),
    }
}

fn login_request(name: &str, password: &str, remember: Option<bool>) -> LoginRequest {
    LoginRequest { username_or_email: name.to_string(), password: password.to_string(), remember_me: remember }
}

fn service_with_alice() -> AuthService {
    let mut service = AuthService::new(RbacEngine::new());
    let info = service.create_user_at(request("alice", "alice@example.com", "Secret123!"), "u-1".to_string(), T0);
    assert!(info.is_ok());
    service
}

fn is_err(r: &Result<impl Sized, AuthError>, expected: &str) -> bool {
    match r {
        Err(e) => e.to_string() == expected,
        Ok(_) => false,
    }
}

#[test]
fn create_user_reports_user_info() {
    let mut service = AuthService::new(RbacEngine::new());
    let info = service.create_user_at(request("alice", "alice@example.com", "Secret123!"), "u-1".to_string(), T0).ok().unwrap();
    assert_eq!(info.id, "u-1");
    assert_eq!(info.username, "alice");
    assert_eq!(info.email, "alice@example.com");
    assert_eq!(info.roles, vec!["user".to_string(), "editor".to_string()]);
    assert_eq!(info.profile.first_name, "Alice");
}

#[test]
fn create_user_refuses_taken_names() {
    let mut service = service_with_alice();
    let same_name = service.create_user_at(request("alice", "other@example.com", "Secret123!"), "u-2".to_string(), T0);
    assert!(is_err(&same_name, "User already exists"));
    let same_email = service.create_user_at(request("bob", "alice@example.com", "Secret123!"), "u-2".to_string(), T0);
    assert!(is_err(&same_email, "User already exists"));
}

#[test]
fn create_user_refuses_bad_email_and_weak_password() {
    let mut service = AuthService::new(RbacEngine::new());
    let no_at = service.create_user_at(request("bob", "bob.example.com", "Secret123!"), "u-2".to_string(), T0);
    assert!(is_err(&no_at, "Invalid email address"));
    let short = service.create_user_at(request("bob", "b@c.d", "Secret123!"), "u-2".to_string(), T0);
    assert!(is_err(&short, "Invalid email address"));
    let weak = service.create_user_at(request("bob", "bob@example.com", "secret123"), "u-2".to_string(), T0);
    assert!(is_err(&weak, "Password is too weak"));
}

#[test]
fn email_and_password_rules() {
    let service = AuthService::new(RbacEngine::new());
    assert!(service.is_valid_email("a@b.com"));
    assert!(!service.is_valid_email("a@b.c"));
    assert!(!service.is_valid_email("ab.com.x"));
    assert!(!service.is_valid_email("abc@example"));
    assert!(service.is_strong_password("Secret123!"));
    assert!(!service.is_strong_password("Sec12!"));
    assert!(!service.is_strong_password("secret123!"));
    assert!(!service.is_strong_password("SECRET123!"));
    assert!(!service.is_strong_password("Secretabc!"));
    assert!(!service.is_strong_password("Secret1234"));
    assert!(service.is_strong_password("Pässwört1!"));
}

#[test]
fn login_at_succeeds_with_right_password() {
    let mut service = service_with_alice();
    let resp = service.login_at(login_request("alice", "Secret123!", None), Some("10.0.0.1".to_string()), Some("curl".to_string()), T0, "s-1".to_string()).ok().unwrap();
    assert_eq!(resp.expires_in, 3600);
    assert_eq!(resp.user.username, "alice");
    assert!(!resp.access_token.is_empty());
    assert!(!resp.refresh_token.is_empty());
    let sessions = service.get_user_sessions("u-1");
    assert_eq!(sessions.len(), 1);
    assert_eq!(sessions[0].session_id, "s-1");
    assert_eq!(sessions[0].ip_address, Some("10.0.0.1".to_string()));
    assert_eq!(sessions[0].created_at, T0);
}

#[test]
fn login_by_email_remembered_lasts_twice_as_long() {
    let mut service = service_with_alice();
    let resp = service.login_at(login_request("alice@example.com", "Secret123!", Some(true)), None, None, T0, "s-1".to_string()).ok().unwrap();
    assert_eq!(resp.expires_in, 7200);
}

#[test]
fn login_refuses_unknown_user_and_wrong_password() {
    let mut service = service_with_alice();
    let unknown = service.login_at(login_request("carol", "Secret123!", None), None, None, T0, "s-1".to_string());
    assert!(is_err(&unknown, "User not found"));
    let wrong = service.login_at(login_request("alice", "Wrong123!", None), None, None, T0, "s-1".to_string());
    assert!(is_err(&wrong, "Invalid credentials"));
}

#[test]
fn fifth_failed_login_locks_for_thirty_minutes() {
    let mut service = service_with_alice();
    for k in 0..5 {
        let wrong = service.login_at(login_request("alice", "Wrong123!", None), None, None, T0 + k, "s".to_string());
        assert!(is_err(&wrong, "Invalid credentials"));
    }
    let locked = service.login_at(login_request("alice", "Secret123!", None), None, None, T0 + 10 * MINUTE, "s-1".to_string());
    assert!(is_err(&locked, "Account is locked"));
    let later = service.login_at(login_request("alice", "Secret123!", None), None, None, T0 + 31 * MINUTE, "s-2".to_string());
    assert!(later.is_ok());
}

#[test]
fn user_lockout_counts_failures() {
    let req = request("dave", "dave@example.com", "Secret123!");
    let mut user = User::from_request(req, "u-9".to_string(), "not-a-hash".to_string(), T0);
    for _ in 0..4 {
        user.increment_failed_attempts_at(T0);
    }
    assert!(!user.is_locked_at(T0));
    user.increment_failed_attempts_at(T0);
    assert_eq!(user.failed_login_attempts, 5);
    assert!(user.is_locked_at(T0 + 29 * MINUTE));
    assert!(!user.is_locked_at(T0 + 30 * MINUTE));
    user.update_last_login_at(T0 + MINUTE);
    assert_eq!(user.failed_login_attempts, 0);
    assert_eq!(user.locked_until, None);
    assert_eq!(user.last_login, Some(T0 + MINUTE));
    assert!(!user.verify_password("anything"));
}

#[test]
fn inactive_or_expired_accounts_are_refused() {
    let req = request("erin", "erin@example.com", "Secret123!");
    let mut user = User::from_request(req, "u-8".to_string(), "h".to_string(), T0);
    user.password_expires_at = Some(T0);
    assert!(user.is_password_expired_at(T0 + 1));
    assert!(!user.is_password_expired_at(T0));
    user.lock_account_at(10, T0);
    assert_eq!(user.locked_until, Some(T0 + 10 * MINUTE));
    user.unlock_account();
    assert_eq!(user.locked_until, None);
}

#[test]
fn login_now_then_verify_token() {
    let mut service = service_with_alice();
    let resp = service.login(login_request("alice", "Secret123!", None), None, None).ok().unwrap();
    let info = service.verify_token(&resp.access_token).ok().unwrap();
    assert_eq!(info.id, "u-1");
    assert_eq!(info.email, "alice@example.com");
    let bad = service.verify_token("not.a.token");
    assert!(is_err(&bad, "Token is invalid"));
    let refresh_as_access = service.verify_token(&resp.refresh_token);
    assert!(is_err(&refresh_as_access, "Token is invalid"));
}

#[test]
fn refresh_token_rotates() {
    let mut service = service_with_alice();
    let resp = service.login(login_request("alice", "Secret123!", None), None, None).ok().unwrap();
    let pair = service.refresh_token(RefreshTokenRequest { refresh_token: resp.refresh_token.clone() }).ok().unwrap();
    assert_eq!(pair.expires_in, 3600);
    assert_ne!(pair.refresh_token, resp.refresh_token);
    let info = service.verify_token(&pair.access_token).ok().unwrap();
    assert_eq!(info.id, "u-1");
    let again = service.refresh_token(RefreshTokenRequest { refresh_token: resp.refresh_token.clone() });
    assert!(is_err(&again, "Token is invalid"));
    let unknown = service.refresh_token(RefreshTokenRequest { refresh_token: "nope".to_string() });
    assert!(is_err(&unknown, "Token is invalid"));
}

#[test]
fn logout_ends_session_and_refresh_tokens() {
    let mut service = service_with_alice();
    let resp = service.login(login_request("alice", "Secret123!", None), None, None).ok().unwrap();
    let claims = service.jwt_manager.verify_access_token(&resp.access_token).ok().unwrap();
    assert!(service.logout(&claims.session_id).is_ok());
    let again = service.logout(&claims.session_id);
    assert!(is_err(&again, "Session is invalid"));
    let refresh = service.refresh_token(RefreshTokenRequest { refresh_token: resp.refresh_token.clone() });
    assert!(is_err(&refresh, "Token is invalid"));
    let verify = service.verify_token(&resp.access_token);
    assert!(is_err(&verify, "Session is invalid"));
}

#[test]
fn invalidated_sessions_are_expired() {
    let mut service = service_with_alice();
    let resp = service.login(login_request("alice", "Secret123!", None), None, None).ok().unwrap();
    service.invalidate_user_sessions("u-1");
    assert!(service.get_user_sessions("u-1").is_empty());
    let verify = service.verify_token(&resp.access_token);
    assert!(is_err(&verify, "Session has expired"));
}

#[test]
fn idle_session_expires_after_thirty_minutes() {
    let mut service = service_with_alice();
    let resp = service.login_at(login_request("alice", "Secret123!", None), None, None, T0, "s-1".to_string()).ok().unwrap();
    let claims = AccessTokenClaims {
        sub: "u-1".to_string(),
        username: "alice".to_string(),
        email: "alice@example.com".to_string(),
        roles: vec![],
        session_id: "s-1".to_string(),
        exp: 0,
        iat: 0,
        iss: String::new(),
        aud: String::new(),
        token_type: "access".to_string(),
    };
    assert!(service.authorize_claims_at(&claims, T0 + 30 * MINUTE).is_ok());
    let idle = service.authorize_claims_at(&claims, T0 + 30 * MINUTE + 1);
    assert!(is_err(&idle, "Session has expired"));
    service.update_session_activity_at("s-1", T0 + 30 * MINUTE);
    assert!(service.authorize_claims_at(&claims, T0 + 60 * MINUTE).is_ok());
    assert!(!resp.access_token.is_empty());
}

#[test]
fn cleanup_drops_old_sessions() {
    let mut service = service_with_alice();
    let _ = service.login_at(login_request("alice", "Secret123!", None), None, None, T0, "s-1".to_string());
    service.cleanup_expired_at(T0 + 24 * 60 * MINUTE);
    assert_eq!(service.get_user_sessions("u-1").len(), 1);
    service.cleanup_expired_at(T0 + 24 * 60 * MINUTE + 1);
    assert!(service.get_user_sessions("u-1").is_empty());
}

#[test]
fn change_password_checks_current_and_strength() {
    let mut service = service_with_alice();
    let weak = service.change_password_at("u-1", ChangePasswordRequest { current_password: "Secret123!".to_string(), new_password: "weak".to_string() }, T0);
    assert!(is_err(&weak, "Password is too weak"));
    let wrong = service.change_password_at("u-1", ChangePasswordRequest { current_password: "Nope123!x".to_string(), new_password: "Better456?".to_string() }, T0);
    assert!(is_err(&wrong, "Invalid credentials"));
    let missing = service.change_password_at("u-7", ChangePasswordRequest { current_password: "Secret123!".to_string(), new_password: "Better456?".to_string() }, T0);
    assert!(is_err(&missing, "User not found"));
    assert!(service.change_password_at("u-1", ChangePasswordRequest { current_password: "Secret123!".to_string(), new_password: "Better456?".to_string() }, T0).is_ok());
    let old = service.login_at(login_request("alice", "Secret123!", None), None, None, T0, "s-1".to_string());
    assert!(is_err(&old, "Invalid credentials"));
    assert!(service.login_at(login_request("alice", "Better456?", None), None, None, T0, "s-2".to_string()).is_ok());
}

#[test]
fn password_expires_ninety_days_after_change() {
    let mut service = service_with_alice();
    assert!(service.change_password_at("u-1", ChangePasswordRequest { current_password: "Secret123!".to_string(), new_password: "Better456?".to_string() }, T0).is_ok());
    let day: i128 = 24 * 60 * MINUTE;
    let expired = service.login_at(login_request("alice", "Better456?", None), None, None, T0 + 90 * day + 1, "s-1".to_string());
    assert!(is_err(&expired, "Password has expired"));
}

#[test]
fn password_reset_request_and_use() {
    let mut service = service_with_alice();
    let unknown = service.request_password_reset(ResetPasswordRequest { email: "nobody@example.com".to_string() });
    assert!(is_err(&unknown, "User not found"));
    let token = service.request_password_reset(ResetPasswordRequest { email: "alice@example.com".to_string() }).ok().unwrap();
    assert!(!token.is_empty());
    let s = service.login(login_request("alice", "Secret123!", None), None, None).ok().unwrap();
    let weak = service.reset_password(&token, "weak");
    assert!(is_err(&weak, "Password is too weak"));
    assert!(service.reset_password(&token, "Better456?").is_ok());
    assert!(service.login(login_request("alice", "Better456?", None), None, None).is_ok());
    let old = service.login(login_request("alice", "Secret123!", None), None, None);
    assert!(is_err(&old, "Invalid credentials"));
    assert!(service.verify_token(&s.access_token).is_err());
    let stale = service.refresh_token(RefreshTokenRequest { refresh_token: s.refresh_token.clone() });
    assert!(is_err(&stale, "Token is invalid"));
    let again = service.reset_password(&token, "Other789#");
    assert!(is_err(&again, "Token is invalid"));
    let garbage = service.reset_password("garbage", "Better456?");
    assert!(is_err(&garbage, "Token is invalid"));
}

#[test]
fn apply_password_reset_is_single_use() {
    let mut service = service_with_alice();
    let token = service.request_password_reset_at(ResetPasswordRequest { email: "alice@example.com".to_string() }, T0).ok().unwrap();
    let weak = service.apply_password_reset_at(&token, "u-1", "weak", T0);
    assert!(is_err(&weak, "Password is too weak"));
    let expired = service.apply_password_reset_at(&token, "u-1", "Better456?", T0 + 61 * MINUTE);
    assert!(is_err(&expired, "Token has expired"));
    let missing_user = service.apply_password_reset_at(&token, "u-7", "Better456?", T0);
    assert!(is_err(&missing_user, "User not found"));
    assert!(service.apply_password_reset_at(&token, "u-1", "Better456?", T0).is_ok());
    let again = service.apply_password_reset_at(&token, "u-1", "Other789#", T0);
    assert!(is_err(&again, "Token is invalid"));
    let unknown = service.apply_password_reset_at("other", "u-1", "Other789#", T0);
    assert!(is_err(&unknown, "Token is invalid"));
}

#[test]
fn jwt_token_pair_claims_read_back() {
    let jwt = JwtManager::new();
    let req = request("frank", "frank@example.com", "Secret123!");
    let user = User::from_request(req, "u-5".to_string(), "h".to_string(), T0);
    let pair = jwt.generate_token_pair(&user, false).ok().unwrap();
    let claims = jwt.verify_access_token(&pair.access_token).ok().unwrap();
    assert_eq!(claims.sub, "u-5");
    assert_eq!(claims.username, "frank");
    assert_eq!(claims.roles, vec!["user".to_string(), "editor".to_string()]);
    assert_eq!(claims.session_id, pair.session_id);
    assert_eq!(claims.exp - claims.iat, 3600);
    assert_eq!(claims.iss, "ecom-auth-service");
    assert_eq!(claims.aud, "ecom-api");
    assert_eq!(claims.token_type, "access");
    let refresh = jwt.verify_refresh_token(&pair.refresh_token).ok().unwrap();
    assert_eq!(refresh.sub, "u-5");
    assert_eq!(refresh.exp - refresh.iat, 30 * 86400);
    assert_eq!(refresh.token_type, "refresh");
    let long = jwt.generate_token_pair(&user, true).ok().unwrap();
    assert_eq!(long.expires_in, 7200);
    let long_refresh = jwt.verify_refresh_token(&long.refresh_token).ok().unwrap();
    assert_eq!(long_refresh.exp - long_refresh.iat, 60 * 86400);
}

#[test]
fn jwt_token_kinds_are_not_interchangeable() {
    let jwt = JwtManager::new();
    let req = request("frank", "frank@example.com", "Secret123!");
    let user = User::from_request(req, "u-5".to_string(), "h".to_string(), T0);
    let pair = jwt.generate_token_pair(&user, false).ok().unwrap();
    let access_as_refresh = jwt.verify_refresh_token(&pair.access_token);
    assert_eq!(access_as_refresh.err(), Some("Invalid token type".to_string()));
    let refresh_as_access = jwt.verify_access_token(&pair.refresh_token).err().unwrap();
    assert!(refresh_as_access.starts_with("Invalid access token: "));
    let garbage = jwt.verify_access_token("abc").err().unwrap();
    assert!(garbage.starts_with("Invalid access token: "));
}

#[test]
fn jwt_old_tokens_are_expired() {
    let jwt = JwtManager::new();
    let req = request("frank", "frank@example.com", "Secret123!");
    let user = User::from_request(req, "u-5".to_string(), "h".to_string(), T0);
    let pair = jwt.generate_token_pair_at(&user, false, 1_000_000, "old".to_string()).ok().unwrap();
    let expired = jwt.verify_access_token(&pair.access_token).err().unwrap();
    assert!(expired.starts_with("Invalid access token: "));
}

#[test]
fn jwt_refresh_access_token_checks_owner() {
    let jwt = JwtManager::new();
    let alice = User::from_request(request("alice", "alice@example.com", "Secret123!"), "u-1".to_string(), "h".to_string(), T0);
    let bob = User::from_request(request("bob", "bob@example.com", "Secret123!"), "u-2".to_string(), "h".to_string(), T0);
    let pair = jwt.generate_token_pair(&alice, true).ok().unwrap();
    let stolen = jwt.refresh_access_token(&bob, &pair.refresh_token);
    assert_eq!(stolen.err(), Some("Refresh token doesn't belong to this user".to_string()));
    let fresh = jwt.refresh_access_token(&alice, &pair.refresh_token).ok().unwrap();
    assert_eq!(fresh.expires_in, 3600);
}

#[test]
fn jwt_reset_token_reads_back_its_user() {
    let jwt = JwtManager::new();
    let token = jwt.create_password_reset_token("u-1").ok().unwrap();
    assert_eq!(jwt.verify_password_reset_token(&token), Ok("u-1".to_string()));
    let req = request("frank", "frank@example.com", "Secret123!");
    let user = User::from_request(req, "u-5".to_string(), "h".to_string(), T0);
    let pair = jwt.generate_token_pair(&user, false).ok().unwrap();
    assert_eq!(jwt.verify_password_reset_token(&pair.access_token), Err("Invalid token type for password reset".to_string()));
    let old = jwt.create_password_reset_token_at("u-1", 1_000_000).ok().unwrap();
    assert!(jwt.verify_password_reset_token(&old).err().unwrap().starts_with("Invalid password reset token: "));
}

#[test]
fn jwt_tokens_of_another_secret_are_refused() {
    let jwt = JwtManager::new();
    let copy = jwt.clone();
    let req = request("frank", "frank@example.com", "Secret123!");
    let user = User::from_request(req, "u-5".to_string(), "h".to_string(), T0);
    let pair = jwt.generate_token_pair(&user, false).ok().unwrap();
    assert!(copy.verify_access_token(&pair.access_token).is_ok());
    let mut forged = pair.access_token.clone();
    forged.push('x');
    assert!(jwt.verify_access_token(&forged).err().unwrap().starts_with("Invalid access token: "));
}

#[test]
fn extract_bearer_token() {
    let jwt = JwtManager::new();
    assert_eq!(jwt.extract_token_from_header("Bearer abc.def"), Ok("abc.def".to_string()));
    assert_eq!(jwt.extract_token_from_header("Bearer Bearer xyz"), Ok("xyz".to_string()));
    assert_eq!(jwt.extract_token_from_header("Basic abc"), Err("Invalid authorization header format".to_string()));
    assert_eq!(jwt.extract_token_from_header("bearer abc"), Err("Invalid authorization header format".to_string()));
    assert_eq!(jwt.extract_token_from_header("Bearer "), Err("Empty token".to_string()));
    assert_eq!(jwt.extract_token_from_header("Bearer Bearer "), Err("Empty token".to_string()));
}

#[test]
fn claims_json_round_trip() {
    let claims = RefreshTokenClaims {
        sub: "u-1".to_string(),
        session_id: "s".to_string(),
        exp: 20,
        iat: 10,
        iss: "i".to_string(),
        aud: "a".to_string(),
        token_type: "refresh".to_string(),
    };
    let back = RefreshTokenClaims::from_json(&claims.to_json()).ok().unwrap();
    assert_eq!(back.sub, "u-1");
    assert_eq!(back.exp, 20);
    assert_eq!(back.iat, 10);
    let partial = AccessTokenClaims::from_json(&claims.to_json());
    assert_eq!(partial.err(), Some("malformed token claims".to_string()));
}

#[test]
fn authentication_gate() {
    let mut service = service_with_alice();
    let skips = vec!["/api/auth/".to_string(), "/api/health".to_string()];
    assert!(matches!(service.authenticate("/api/auth/login", &skips, None), AuthGate::Skipped));
    match service.authenticate("/api/users/1", &skips, None) {
        AuthGate::Rejected { error, message } => {
            assert_eq!(error, "Missing authorization header");
            assert_eq!(message, "Authorization header is required");
        },
        _ => panic!("expected a rejection"),
    }
    match service.authenticate("/api/users/1", &skips, Some("Token abc")) {
        AuthGate::Rejected { error, message } => {
            assert_eq!(error, "Invalid authorization header");
            assert_eq!(message, "Invalid authorization header format");
        },
        _ => panic!("expected a rejection"),
    }
    match service.authenticate("/api/users/1", &skips, Some("Bearer abc")) {
        AuthGate::Rejected { error, message } => {
            assert_eq!(error, "Authentication failed");
            assert_eq!(message, "Token is invalid");
        },
        _ => panic!("expected a rejection"),
    }
    let resp = service.login(login_request("alice", "Secret123!", None), None, None).ok().unwrap();
    let header = format!("Bearer {}", resp.access_token);
    match service.authenticate("/api/users/1", &skips, Some(&header)) {
        AuthGate::Authenticated(info) => assert_eq!(info.username, "alice"),
        _ => panic!("expected the account"),
    }
}

#[test]
fn default_accounts_log_in() {
    let (mut service, warnings) = hybrid_rbac_abac::setup::setup_auth_service(RbacEngine::new());
    assert!(warnings.is_empty());
    let admin = service.login_at(login_request("admin", "Admin123!@#", None), None, None, T0, "s-1".to_string()).ok().unwrap();
    assert_eq!(admin.user.roles, vec!["admin".to_string()]);
    assert_eq!(admin.user.profile.department, Some("IT".to_string()));
    let user = service.login_at(login_request("user", "User123!@#", None), None, None, T0, "s-2".to_string()).ok().unwrap();
    assert_eq!(user.user.roles, vec!["user".to_string()]);
    assert_eq!(user.user.email, "user@example.com");
    assert_eq!(admin.user.email, "admin@example.com");
    let by_email = service.login_at(login_request("admin@example.com", "Admin123!@#", None), None, None, T0, "s-3".to_string());
    assert!(by_email.is_ok());
    assert_ne!(admin.user.id, user.user.id);
}

#[test]
fn created_accounts_get_distinct_random_ids() {
    let mut service = AuthService::new(RbacEngine::new());
    let a = service.create_user(request("gina", "gina@example.com", "Secret123!")).ok().unwrap();
    let b = service.create_user(request("hank", "hank@example.com", "Secret123!")).ok().unwrap();
    assert_ne!(a.id, b.id);
    assert_eq!(a.id.len(), 36);
    assert!(service.login_at(login_request("hank", "Secret123!", None), None, None, T0, "s".to_string()).is_ok());
}
