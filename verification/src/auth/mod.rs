//! Authentication: user accounts, tokens and the authentication service.
pub mod json;
pub mod jwt;
pub mod user;
pub mod service;
