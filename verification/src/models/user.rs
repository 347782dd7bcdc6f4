//! Account records and the request and response forms of the
//! authentication endpoints. The authentication logic itself lives with the
//! surrounding service; these are the plain values it moves around.

use vstd::prelude::*;

verus! {

#[derive(Debug)]
pub struct User {
    pub id: i64,
    pub username: String,
    pub password_hash: String,
    pub display_name: Option<String>,
    pub created_at: String,
    pub updated_at: String,
}

#[derive(Debug)]
pub struct CreateUser {
    pub username: String,
    pub password: String,
}

#[derive(Debug)]
pub struct LoginRequest {
    pub username: String,
    pub password: String,
}

#[derive(Debug)]
pub struct LoginResponse {
    pub token: String,
    pub user: UserInfo,
}

#[derive(Debug)]
pub struct TokenRefreshResponse {
    pub token: String,
}

#[derive(Debug)]
pub struct UserInfo {
    pub id: i64,
    pub username: String,
    pub display_name: Option<String>,
}

#[derive(Debug)]
pub struct UpdateUsernameRequest {
    pub new_username: String,
}

#[derive(Debug)]
pub struct UpdateDisplayNameRequest {
    pub display_name: Option<String>,
}

#[derive(Debug)]
pub struct UpdatePasswordRequest {
    pub current_password: String,
    pub new_password: String,
}

} // verus!
