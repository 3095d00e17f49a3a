//! Users: login and registration requests, the stored account, and the user
//! kept in the session.
use vstd::prelude::*;

verus! {

/// Login by username.
#[derive(Debug, Clone, PartialEq, Eq)]
pub struct UsernameUserRequest {
    pub username: String,
    pub password: String,
}

/// Login by e-mail address.
#[derive(Debug, Clone, PartialEq, Eq)]
pub struct EmailUserRequest {
    pub email: String,
    pub password: String,
}

/// Registration of a new account.
#[derive(Debug, Clone, PartialEq, Eq)]
pub struct UserRequest {
    pub username: String,
    pub email: String,
    pub password: String,
    pub email_verified: bool,
    pub role: Option<String>,
}

/// A stored account, with its password hash (PHC string).
#[derive(Debug, Clone, PartialEq, Eq)]
pub struct UserSession {
    pub id: u128,
    pub password: String,
    pub username: String,
    pub email: String,
    pub role: Option<String>,
}

/// The user kept in the session after a successful login.
#[derive(Debug, Clone, PartialEq, Eq)]
pub struct SessionUser {
    pub id: u128,
    pub username: String,
    pub email: String,
    pub role: Option<String>,
}

/// A signature for an upload to Cloudinary.
#[derive(Debug, Clone, PartialEq, Eq)]
pub struct SignatureResponse {
    pub timestamp: u64,
    pub signature: String,
    pub api_key: String,
}

} // verus!
