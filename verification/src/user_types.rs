//! The plain records the user-facing endpoints exchange: registration and
//! login requests, and their responses.
//!
//! Credential handling itself — hashing, token issuance — belongs to the
//! surrounding authentication layer; these records only carry its values.

use vstd::prelude::*;

verus! {

/// A bare authentication token.
pub struct AuthResponse {
    pub token: String,
}

impl AuthResponse {
    pub fn new(token: String) -> (r: AuthResponse)
        ensures
            r.token == token,
    {
        AuthResponse { token }
    }
}

/// Request body for user registration.
pub struct UserRegisterRequest {
    pub username: String,
    pub password: String,
}

impl UserRegisterRequest {
    pub fn new(username: String, password: String) -> (r: UserRegisterRequest)
        ensures
            r.username == username,
            r.password == password,
    {
        UserRegisterRequest { username, password }
    }
}

/// Request body for user login.
pub struct UserLoginRequest {
    pub username: String,
    pub password: String,
}

impl UserLoginRequest {
    pub fn new(username: String, password: String) -> (r: UserLoginRequest)
        ensures
            r.username == username,
            r.password == password,
    {
        UserLoginRequest { username, password }
    }
}

/// Response for a successful registration.
pub struct UserRegisterResponse {
    pub user_id: i32,
    pub username: String,
    pub token: String,
}

impl UserRegisterResponse {
    pub fn new(user_id: i32, username: String, token: String) -> (r: UserRegisterResponse)
        ensures
            r.user_id == user_id,
            r.username == username,
            r.token == token,
    {
        UserRegisterResponse { username, user_id, token }
    }
}

/// Response for a successful login.
pub struct UserLoginResponse {
    pub user_id: i32,
    pub username: String,
    pub token: String,
}

impl UserLoginResponse {
    pub fn new(user_id: i32, username: String, token: String) -> (r: UserLoginResponse)
        ensures
            r.user_id == user_id,
            r.username == username,
            r.token == token,
    {
        UserLoginResponse { username, user_id, token }
    }
}

} // verus!
