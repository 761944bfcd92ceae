use hybrid_rbac_abac::auth::service::AuthError;
use hybrid_rbac_abac::auth::user::{UserInfo, UserProfile};
use hybrid_rbac_abac::dict::StrMap;
use hybrid_rbac_abac::handlers::{
    document_accessed, document_updated, sessions_invalidated_message, user_accessed, user_updated,
};

fn info(roles: &[&str]) -> UserInfo {
    UserInfo {
        id: "u".to_string(),
        username: "n".to_string(),
        email: "e@x.io".to_string(),
        roles: roles.iter().map(|r| r.to_string()).collect(),
        profile: UserProfile {
            first_name: "F".to_string(),
            last_name: "L".to_string(),
            department: None,
            phone: None,
            attributes: StrMap::new(),
        },
    }
}

#[test]
fn error_messages() {
    assert_eq!(AuthError::UserNotFound.to_string(), "User not found");
    assert_eq!(AuthError::InvalidCredentials.to_string(), "Invalid credentials");
    assert_eq!(AuthError::UserLocked.to_string(), "Account is locked");
    assert_eq!(AuthError::UserInactive.to_string(), "Account is inactive");
    assert_eq!(AuthError::PasswordExpired.to_string(), "Password has expired");
    assert_eq!(AuthError::MustChangePassword.to_string(), "Password must be changed");
    assert_eq!(AuthError::TokenExpired.to_string(), "Token has expired");
    assert_eq!(AuthError::TokenInvalid.to_string(), "Token is invalid");
    assert_eq!(AuthError::SessionExpired.to_string(), "Session has expired");
    assert_eq!(AuthError::SessionInvalid.to_string(), "Session is invalid");
    assert_eq!(AuthError::UserAlreadyExists.to_string(), "User already exists");
    assert_eq!(AuthError::WeakPassword.to_string(), "Password is too weak");
    assert_eq!(AuthError::InvalidEmail.to_string(), "Invalid email address");
    assert_eq!(AuthError::InternalError("boom".to_string()).to_string(), "Internal error: boom");
}

#[test]
fn login_failure_statuses() {
    assert_eq!(AuthError::InvalidCredentials.login_status(), 401);
    assert_eq!(AuthError::UserLocked.login_status(), 423);
    assert_eq!(AuthError::UserInactive.login_status(), 403);
    assert_eq!(AuthError::PasswordExpired.login_status(), 422);
    assert_eq!(AuthError::MustChangePassword.login_status(), 422);
    assert_eq!(AuthError::UserNotFound.login_status(), 400);
}

#[test]
fn role_checks() {
    let u = info(&["admin", "user"]);
    assert!(u.has_role("admin"));
    assert!(!u.has_role("adm"));
    assert!(u.has_any_role(&["manager", "user"]));
    assert!(!u.has_any_role(&["manager"]));
    assert!(!u.has_any_role(&[]));
}

#[test]
fn endpoint_messages() {
    assert_eq!(user_accessed("42").message, "User 42 data accessed successfully");
    assert_eq!(user_updated("42").message, "User 42 updated successfully");
    assert_eq!(document_accessed("7").message, "Document 7 accessed successfully");
    assert_eq!(document_updated("7").message, "Document 7 updated successfully");
    assert_eq!(sessions_invalidated_message("u1"), "All sessions for user u1 have been invalidated");
}

