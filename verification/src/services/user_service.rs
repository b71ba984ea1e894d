//! The rules of managing accounts: what a change sets, and what each
//! operation answers.

use vstd::prelude::*;

use crate::errors::{AppError, AppResult};
use crate::models::domain::user::User;
use crate::models::dto::request::UpdateUserRequestDto;
use crate::models::dto::response::{public_form, ApiResponse, PaginatedUserResponse, PaginationMetadata, UserDto};
use crate::text::{concat3, opt_string_model, owned};

verus! {

/// The fields a change of account sets, in order, with their new values.
pub open spec fn fields_set(r: &UpdateUserRequestDto) -> Seq<(Seq<char>, Seq<char>)> {
    let a: Seq<(Seq<char>, Seq<char>)> = match r.first_name {
        Some(v) => seq![("first_name"@, v@)],
        None => seq![],
    };
    let b: Seq<(Seq<char>, Seq<char>)> = match r.last_name {
        Some(v) => seq![("last_name"@, v@)],
        None => seq![],
    };
    let c: Seq<(Seq<char>, Seq<char>)> = match r.email {
        Some(v) => seq![("email"@, v@)],
        None => seq![],
    };
    a + b + c
}

/// The account stored for a sign-in through GitHub, given the account
/// already stored under the same GitHub id, if any: names, username,
/// email, GitHub id and role come from `user`; an existing account keeps
/// its id and creation time, a new one takes those of `user`. An account
/// without a GitHub id is refused.
pub fn upserted_user(existing: Option<User>, user: User) -> (r: AppResult<User>)
    ensures
        user.github_id is None ==> (r matches Err(AppError::ValidationError(m)) && m@ == "User must have a github_id for upsert"@),
        user.github_id is Some ==> (r matches Ok(u) && {
            &&& u.first_name@ == user.first_name@
            &&& u.last_name@ == user.last_name@
            &&& u.username@ == user.username@
            &&& u.email@ == user.email@
            &&& opt_string_model(u.github_id) == opt_string_model(user.github_id)
            &&& u.role == user.role
            &&& match existing {
                Some(e) => opt_string_model(u.id) == opt_string_model(e.id) && u.created_at == e.created_at,
                None => opt_string_model(u.id) == opt_string_model(user.id) && u.created_at == user.created_at,
            }
        }),
{
    if user.github_id.is_none() {
        return Err(AppError::ValidationError(owned("User must have a github_id for upsert")));
    }
    let (id, created_at) = match existing {
        Some(e) => (e.id, e.created_at),
        None => (user.id, user.created_at),
    };
    Ok(User {
        id,
        first_name: user.first_name,
        last_name: user.last_name,
        username: user.username,
        email: user.email,
        github_id: user.github_id,
        role: user.role,
        created_at,
    })
}

/// The fields a change of account sets, with their new values; a change
/// that sets nothing is refused.
pub fn user_update_fields(request: UpdateUserRequestDto) -> (r: AppResult<Vec<(String, String)>>)
    ensures
        fields_set(&request).len() == 0 ==> (r matches Err(AppError::ValidationError(m)) && m@ == "No fields provided to update"@),
        fields_set(&request).len() > 0 ==> (r matches Ok(v) && v@.len() == fields_set(&request).len()
            && forall|i: int| 0 <= i < v@.len() ==> ((#[trigger] v@[i]).0@, v@[i].1@) == fields_set(&request)[i]),
{
    let ghost expected = fields_set(&request);
    let ghost fname = request.first_name;
    let ghost lname = request.last_name;
    let ghost mail = request.email;
    let mut fields: Vec<(String, String)> = Vec::new();
    let ghost mut done: Seq<(Seq<char>, Seq<char>)> = seq![];
    match request.first_name {
        Some(v) => {
            fields.push((owned("first_name"), v));
            proof { done = done + seq![("first_name"@, fields@[fields@.len() - 1].1@)]; }
        },
        None => {},
    }
    assert(done == match fname { Some(v) => seq![("first_name"@, v@)], None => Seq::<(Seq<char>, Seq<char>)>::empty() });
    match request.last_name {
        Some(v) => {
            fields.push((owned("last_name"), v));
            proof { done = done + seq![("last_name"@, fields@[fields@.len() - 1].1@)]; }
        },
        None => {},
    }
    match request.email {
        Some(v) => {
            fields.push((owned("email"), v));
            proof { done = done + seq![("email"@, fields@[fields@.len() - 1].1@)]; }
        },
        None => {},
    }
    assert(done =~= expected);
    assert(fields@.len() == done.len());
    assert(forall|i: int| 0 <= i < fields@.len() ==> ((#[trigger] fields@[i]).0@, fields@[i].1@) == done[i]);
    if fields.len() == 0 {
        return Err(AppError::ValidationError(owned("No fields provided to update")));
    }
    Ok(fields)
}

/// The refusal of a username that is taken.
pub fn user_exists_error(username: &str) -> (e: AppError)
    ensures
        e matches AppError::AlreadyExists(m) && m@ == "User with username '"@ + username@ + "' already exists"@,
{
    AppError::AlreadyExists(concat3("User with username '", username, "' already exists"))
}

/// The refusal of a username that is not known.
pub fn user_not_found(username: &str) -> (e: AppError)
    ensures
        e matches AppError::NotFound(m) && m@ == "User with username '"@ + username@ + "' not found"@,
{
    AppError::NotFound(concat3("User with username '", username, "' not found"))
}

/// What creating an account answers.
pub fn created_user_response(user: User) -> (r: ApiResponse<UserDto>)
    ensures
        public_form(r.data, user),
        r.message@ == "User created successfully"@,
{
    ApiResponse { data: UserDto::from(user), message: owned("User created successfully") }
}

/// What changing an account answers.
pub fn updated_user_response(user: User) -> (r: ApiResponse<UserDto>)
    ensures
        public_form(r.data, user),
        r.message@ == "User updated successfully"@,
{
    ApiResponse { data: UserDto::from(user), message: owned("User updated successfully") }
}

/// The message of a deleted account.
pub fn deleted_user_message(username: &str) -> (m: String)
    ensures
        m@ == "User '"@ + username@ + "' deleted successfully"@,
{
    concat3("User '", username, "' deleted successfully")
}

/// A page of users, each in its public form, with where the page sits.
pub fn paginated_users(users: Vec<User>, offset: i64, limit: i64, total: i64) -> (r: PaginatedUserResponse)
    ensures
        r.data@.len() == users@.len(),
        forall|i: int| 0 <= i < users@.len() ==> public_form(#[trigger] r.data@[i], users@[i]),
        r.pagination.offset == offset,
        r.pagination.limit == limit,
        r.pagination.total == total,
{
    let ghost all = users@;
    let mut data: Vec<UserDto> = Vec::new();
    let mut it = users;
    let _n = it.len();
    let mut k: usize = 0;
    while it.len() > 0
        invariant
            k + it@.len() == all.len(),
            all.len() <= usize::MAX,
            it@ == all.skip(k as int),
            data@.len() == k,
            forall|j: int| 0 <= j < k ==> public_form(#[trigger] data@[j], all[j]),
        decreases it.len(),
    {
        let u = it.remove(0);
        assert(u == all[k as int]);
        data.push(UserDto::from(u));
        k += 1;
        assert(it@ =~= all.skip(k as int));
    }
    PaginatedUserResponse { data, pagination: PaginationMetadata { offset, limit, total } }
}

} // verus!
