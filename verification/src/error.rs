//! The application error type: a kind, an optional user-facing message
//! and an optional cause.
//!
//! Row-level ingestion failures never surface as errors (they are folded
//! into counters); these values are for request-level failures such as a
//! rejected upload, a duplicate record or a failed lookup.

use vstd::prelude::*;

verus! {

/// The kinds of application error.
#[derive(Clone, Copy, Debug, PartialEq, Eq, Structural)]
pub enum AppErrorType {
    /// Template rendering failure.
    Template,
    AuthError,
    HttpError,
    DbError,
    RedisError,
    SledError,
    JsonError,
    NotFound,
    IsExists,
    UploadError,
    ExcelError,
    CSVError,
    ProtectedContentError,
    /// Any other failure.
    Common,
}

/// An application error.
#[derive(Clone, Debug)]
pub struct AppError {
    /// The kind of error.
    pub error_type: AppErrorType,
    /// User-facing message, when one was given.
    pub message: Option<String>,
    /// Underlying cause, when one was recorded.
    pub cause: Option<String>,
}

impl AppError {
    /// Wraps the text of an underlying failure as this application's error.
    pub fn from_err(cause: &str, error_type: AppErrorType) -> (r: AppError)
        ensures
            r.error_type == error_type,
            r.message is None,
            r.cause matches Some(c) && c@ == cause@,
    {
        AppError { message: None, cause: Some(cause.to_owned()), error_type }
    }

    /// Builds an error carrying a user-facing message.
    pub fn from_str(msg: &str, error_type: AppErrorType) -> (r: AppError)
        ensures
            r.error_type == error_type,
            r.message matches Some(m) && m@ == msg@,
            r.cause is None,
    {
        AppError { message: Some(msg.to_owned()), cause: None, error_type }
    }

    /// A store error with the given message.
    pub fn db_error_from_str(msg: &str) -> (r: AppError)
        ensures
            r.error_type == AppErrorType::DbError,
            r.message matches Some(m) && m@ == msg@,
            r.cause is None,
    {
        Self::from_str(msg, AppErrorType::DbError)
    }

    /// A not-found error with the given message.
    pub fn not_found(msg: &str) -> (r: AppError)
        ensures
            r.error_type == AppErrorType::NotFound,
            r.message matches Some(m) && m@ == msg@,
            r.cause is None,
    {
        Self::from_str(msg, AppErrorType::NotFound)
    }

    /// A not-found error with the given message.
    pub fn not_found_from_str(msg: &str) -> (r: AppError)
        ensures
            r.error_type == AppErrorType::NotFound,
            r.message matches Some(m) && m@ == msg@,
            r.cause is None,
    {
        Self::from_str(msg, AppErrorType::NotFound)
    }

    /// An already-exists error with the given message.
    pub fn is_exists(msg: &str) -> (r: AppError)
        ensures
            r.error_type == AppErrorType::IsExists,
            r.message matches Some(m) && m@ == msg@,
            r.cause is None,
    {
        Self::from_str(msg, AppErrorType::IsExists)
    }

    /// A template error, recording the renderer's failure text as cause.
    pub fn tmpl_err(cause: &str) -> (r: AppError)
        ensures
            r.error_type == AppErrorType::Template,
            r.message is Some,
            r.cause matches Some(c) && c@ == cause@,
    {
        AppError {
            message: Some("渲染模板出错".to_owned()),
            cause: Some(cause.to_owned()),
            error_type: AppErrorType::Template,
        }
    }

    /// An authentication error with the given message.
    pub fn auth_error(msg: &str) -> (r: AppError)
        ensures
            r.error_type == AppErrorType::AuthError,
            r.message matches Some(m) && m@ == msg@,
            r.cause is None,
    {
        Self::from_str(msg, AppErrorType::AuthError)
    }
}

} // verus!
