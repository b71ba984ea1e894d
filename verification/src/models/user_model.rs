use vstd::prelude::*;

verus! {

/// The plain profile of an account: names, handle and mail address.
#[derive(Clone, Debug, PartialEq, Eq)]
pub struct User {
    pub first_name: String,
    pub last_name: String,
    pub username: String,
    pub email: String,
}

} // verus!
