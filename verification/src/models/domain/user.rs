use vstd::prelude::*;

use crate::clock::now_micros;
use crate::models::dto::request::CreateUserRequestDto;
use crate::text::{concat2, owned};

verus! {

/// The role of an account; admins may act on every resource.
#[derive(Clone, Copy, Debug, PartialEq, Eq, Structural)]
pub enum UserRole {
    User,
    Admin,
}

impl Default for UserRole {
    fn default() -> (r: Self)
        ensures
            r == UserRole::User,
    {
        UserRole::User
    }
}

/// An account. `id` is the storage identifier (a 24-character hex object id)
/// once the account is stored; timestamps are microseconds since the epoch.
#[derive(Debug)]
pub struct User {
    pub id: Option<String>,
    pub first_name: String,
    pub last_name: String,
    pub username: String,
    pub email: String,
    pub github_id: Option<String>,
    pub role: UserRole,
    pub created_at: Option<i64>,
}

impl User {
    /// A new, not yet stored account with the default role, stamped with the
    /// current time.
    pub fn new(first_name: &str, last_name: &str, username: &str, email: &str) -> (u: Self)
        ensures
            u.id is None,
            u.first_name@ == first_name@,
            u.last_name@ == last_name@,
            u.username@ == username@,
            u.email@ == email@,
            u.github_id is None,
            u.role == UserRole::User,
            u.created_at is Some,
    {
        User {
            id: None,
            first_name: owned(first_name),
            last_name: owned(last_name),
            username: owned(username),
            email: owned(email),
            github_id: None,
            role: UserRole::User,
            created_at: Some(now_micros()),
        }
    }

    /// A new, not yet stored account for a GitHub user: the GitHub name,
    /// if any, as the first name, the login as the username, the default
    /// role, stamped with the current time.
    pub fn from_github(github_id: String, username: String, email: String, name: Option<String>) -> (u: Self)
        ensures
            u.id is None,
            u.first_name@ == match name { Some(n) => n@, None => Seq::<char>::empty() },
            u.last_name@ == Seq::<char>::empty(),
            u.username == username,
            u.email == email,
            u.github_id == Some(github_id),
            u.role == UserRole::User,
            u.created_at is Some,
    {
        let first_name = match name {
            Some(n) => n,
            None => String::new(),
        };
        User {
            id: None,
            first_name,
            last_name: String::new(),
            username,
            email,
            github_id: Some(github_id),
            role: UserRole::User,
            created_at: Some(now_micros()),
        }
    }

    /// A new, not yet stored account from a creation request, stamped with
    /// the current time.
    pub fn from_request(request: CreateUserRequestDto) -> (u: Self)
        ensures
            u.id is None,
            u.first_name == request.first_name,
            u.last_name == request.last_name,
            u.username == request.username,
            u.email == request.email,
            u.github_id is None,
            u.role == UserRole::User,
            u.created_at is Some,
    {
        User {
            id: None,
            first_name: request.first_name,
            last_name: request.last_name,
            username: request.username,
            email: request.email,
            github_id: None,
            role: UserRole::User,
            created_at: Some(now_micros()),
        }
    }

    /// A sample account named Test User.
    pub fn test_user(username: &str, email: &str) -> (u: Self)
        ensures
            u.first_name@ == "Test"@,
            u.last_name@ == "User"@,
            u.username@ == username@,
            u.email@ == email@,
    {
        User::new("Test", "User", username, email)
    }

    /// A sample account named Test User, mailed at `username@example.com`.
    pub fn test_user_simple(username: &str) -> (u: Self)
        ensures
            u.first_name@ == "Test"@,
            u.last_name@ == "User"@,
            u.username@ == username@,
            u.email@ == username@ + "@example.com"@,
    {
        let email = concat2(username, "@example.com");
        User::new("Test", "User", username, email.as_str())
    }
}

} // verus!