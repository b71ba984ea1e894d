//! Sample accounts for exercising the library.

use vstd::prelude::*;

use crate::models::domain::user::User;
use crate::text::concat2;

verus! {

/// The sample account `testuser`.
pub fn test_user() -> (u: User)
    ensures
        u.username@ == "testuser"@,
        u.email@ == "test@example.com"@,
{
    User::new("Test", "User", "testuser", "test@example.com")
}

/// A sample account with the given username, mailed at
/// `username@example.com`.
pub fn test_user_with_username(username: &str) -> (u: User)
    ensures
        u.username@ == username@,
        u.email@ == username@ + "@example.com"@,
{
    let email = concat2(username, "@example.com");
    User::new("Test", "User", username, email.as_str())
}

/// Three sample accounts: `johndoe`, `janesmith` and `alice`.
pub fn test_users() -> (v: Vec<User>)
    ensures
        v@.len() == 3,
        v@[0].username@ == "johndoe"@,
        v@[1].username@ == "janesmith"@,
        v@[2].username@ == "alice"@,
{
    let mut v: Vec<User> = Vec::new();
    v.push(User::new("John", "Doe", "johndoe", "john@example.com"));
    v.push(User::new("Jane", "Smith", "janesmith", "jane@example.com"));
    v.push(User::new("Alice", "Wonder", "alice", "alice@example.com"));
    v
}

} // verus!
