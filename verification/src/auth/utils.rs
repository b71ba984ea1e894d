use vstd::prelude::*;

use crate::auth::claims::Claims;
use crate::errors::{AppError, AppResult, is_forbidden, is_unauthorized};
use crate::models::domain::user::UserRole;
use crate::text::{owned, str_eq};

verus! {

/// Only admins pass.
pub fn require_admin(claims: &Claims) -> (r: AppResult<()>)
    ensures
        r is Ok <==> claims.role == UserRole::Admin,
        r is Err ==> is_unauthorized(r, "Only admins can perform this action"@),
{
    if claims.role != UserRole::Admin {
        proof { reveal_strlit("Only admins can perform this action"); }
        return Err(AppError::Unauthorized(owned("Only admins can perform this action")));
    }
    Ok(())
}

/// Admins and the owner of the resource (the subject equals
/// `resource_owner`) pass.
pub fn require_owner_or_admin(claims: &Claims, resource_owner: &str) -> (r: AppResult<()>)
    ensures
        r is Ok <==> (claims.role == UserRole::Admin || claims.sub@ == resource_owner@),
        r is Err ==> is_unauthorized(r, "You can only access your own resources"@),
{
    if claims.role != UserRole::Admin && !str_eq(claims.sub.as_str(), resource_owner) {
        proof { reveal_strlit("You can only access your own resources"); }
        return Err(AppError::Unauthorized(owned("You can only access your own resources")));
    }
    Ok(())
}

/// Access to a user's own resources, where the user is named by its
/// username: the caller passes when it is an admin, or when its subject is
/// the user's stored id (`stored_id`, when the user was found), or the
/// username itself (the subject of an account without a stored id).
pub fn require_user_owner(claims: &Claims, username: &str, stored_id: Option<&str>) -> (r: AppResult<()>)
    ensures
        r is Ok <==> (claims.role == UserRole::Admin || claims.sub@ == username@ || (
        stored_id matches Some(id) && claims.sub@ == id@)),
        r is Err ==> is_unauthorized(r, "You can only access your own resources"@),
{
    match stored_id {
        Some(id) => {
            if str_eq(claims.sub.as_str(), id) {
                return Ok(());
            }
        },
        None => {},
    }
    require_owner_or_admin(claims, username)
}

/// Quiz ownership: the quiz's creator passes, and so do admins.
pub fn require_quiz_owner(claims: &Claims, quiz_owner_id: &str) -> (r: AppResult<()>)
    ensures
        r is Ok <==> (claims.role == UserRole::Admin || claims.sub@ == quiz_owner_id@),
        r is Err ==> is_forbidden(r, "Only the quiz owner can perform this action"@),
{
    if claims.role != UserRole::Admin && !str_eq(claims.sub.as_str(), quiz_owner_id) {
        proof { reveal_strlit("Only the quiz owner can perform this action"); }
        return Err(AppError::Forbidden(owned("Only the quiz owner can perform this action")));
    }
    Ok(())
}

/// Only the quiz creator or a user who has attempted it may see its results.
pub fn can_view_quiz_results(user_id: &str, quiz_creator_id: &str, has_user_attempted: bool) -> (r: AppResult<()>)
    ensures
        r is Ok <==> (user_id@ == quiz_creator_id@ || has_user_attempted),
        r is Err ==> is_forbidden(r, "You can only view results for quizzes you created or have attempted"@),
{
    if !str_eq(user_id, quiz_creator_id) && !has_user_attempted {
        proof { reveal_strlit("You can only view results for quizzes you created or have attempted"); }
        return Err(AppError::Forbidden(owned("You can only view results for quizzes you created or have attempted")));
    }
    Ok(())
}

/// Only the user who made an attempt may view it.
pub fn can_view_quiz_attempt(user_id: &str, attempt_user_id: &str) -> (r: AppResult<()>)
    ensures
        r is Ok <==> user_id@ == attempt_user_id@,
        r is Err ==> is_forbidden(r, "You can only view your own quiz attempts"@),
{
    if !str_eq(user_id, attempt_user_id) {
        proof { reveal_strlit("You can only view your own quiz attempts"); }
        return Err(AppError::Forbidden(owned("You can only view your own quiz attempts")));
    }
    Ok(())
}

} // verus!
