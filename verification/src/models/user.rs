//! Users of the site.

use vstd::prelude::*;

verus! {

/// A registered user.
#[derive(Debug, Clone, PartialEq, Eq)]
pub struct User {
    pub uid: String,
    pub username: String,
    pub email: Option<String>,
    pub created_at: String,
}

/// What is sent to register a user.
#[derive(Debug, Clone, PartialEq, Eq)]
pub struct UserCreateRequest {
    pub username: String,
    pub password: String,
    pub email: Option<String>,
}

} // verus!
