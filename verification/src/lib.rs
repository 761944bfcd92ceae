//! Hybrid role- and attribute-based access control with password and token
//! authentication.
pub mod abac;
pub mod auth;
pub mod clock;
pub mod context;
pub mod dict;
pub mod handlers;
pub mod hybrid;
pub mod rbac;
pub mod setup;
pub mod text;
pub mod types;
