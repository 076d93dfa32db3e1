use vstd::prelude::*;

verus! {

/// The errors the service answers with.
#[derive(Debug)]
pub enum AppError {
    NotFound,
    Unauthorized,
    Forbidden,
    BadRequest(String),
    Internal(String),
}

/// Shorthand for results carrying an [`AppError`].
pub type AppResult<T> = Result<T, AppError>;

/// `r` is a `BadRequest` whose message is `msg`.
pub open spec fn is_bad_request<T>(r: AppResult<T>, msg: Seq<char>) -> bool {
    r matches Err(AppError::BadRequest(m)) && m@ == msg
}

/// `r` is a `Forbidden` refusal.
pub open spec fn is_forbidden<T>(r: AppResult<T>) -> bool {
    r matches Err(AppError::Forbidden)
}

/// Builds a `BadRequest` error carrying `msg`.
pub fn bad_request(msg: &str) -> (e: AppError)
    ensures
        e matches AppError::BadRequest(m) && m@ == msg@,
{
    AppError::BadRequest(msg.to_owned())
}

} // verus!
