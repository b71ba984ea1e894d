use vstd::prelude::*;

verus! {

/// The unified error type of the service. Each variant carries a message
/// meant for the client.
#[derive(Debug)]
pub enum AppError {
    NotFound(String),
    AlreadyExists(String),
    ValidationError(String),
    BadRequest(String),
    Unauthorized(String),
    Forbidden(String),
    InternalError(String),
}

pub type AppResult<T> = Result<T, AppError>;

/// True when `r` is an error of the `Unauthorized` kind whose message is `m`.
pub open spec fn is_unauthorized<T>(r: AppResult<T>, m: Seq<char>) -> bool {
    r matches Err(AppError::Unauthorized(s)) && s@ == m
}

/// True when `r` is an error of the `Forbidden` kind whose message is `m`.
pub open spec fn is_forbidden<T>(r: AppResult<T>, m: Seq<char>) -> bool {
    r matches Err(AppError::Forbidden(s)) && s@ == m
}

/// True when `r` is an error of the `BadRequest` kind whose message is `m`.
pub open spec fn is_bad_request<T>(r: AppResult<T>, m: Seq<char>) -> bool {
    r matches Err(AppError::BadRequest(s)) && s@ == m
}

/// True when `r` is an error of the `ValidationError` kind whose message is `m`.
pub open spec fn is_validation_error<T>(r: AppResult<T>, m: Seq<char>) -> bool {
    r matches Err(AppError::ValidationError(s)) && s@ == m
}

/// True when `r` is an error of the `NotFound` kind whose message is `m`.
pub open spec fn is_not_found<T>(r: AppResult<T>, m: Seq<char>) -> bool {
    r matches Err(AppError::NotFound(s)) && s@ == m
}

} // verus!
