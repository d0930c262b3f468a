//! The application's error type and how each error is answered over HTTP.
use vstd::prelude::*;
use crate::common::validation::ValidationErrors;

verus! {

/// Every failure the application reports to a client.
#[derive(Debug)]
pub enum AppError {
    /// Malformed or otherwise invalid request (400 `BAD_REQUEST`).
    BadRequest(String),
    /// Missing authentication, token error or refresh-session error (401 `UNAUTHORIZED`).
    Unauthorized,
    /// Email and password do not match (401 `INVALID_CREDENTIALS`).
    InvalidCredentials,
    /// Insufficient permission (403 `FORBIDDEN`).
    Forbidden,
    /// Target resource does not exist (404 `NOT_FOUND`).
    NotFound(String),
    /// Request DTO validation failed (422 `VALIDATION_ERROR`).
    Validation(ValidationErrors),
    /// Internal server error (500 `INTERNAL_SERVER_ERROR`); the text is for logs only.
    Internal(String),
}

/// HTTP status code of each kind of error.
pub open spec fn status_of(e: AppError) -> u16 {
    match e {
        AppError::BadRequest(_) => 400,
        AppError::Unauthorized => 401,
        AppError::InvalidCredentials => 401,
        AppError::Forbidden => 403,
        AppError::NotFound(_) => 404,
        AppError::Validation(_) => 422,
        AppError::Internal(_) => 500,
    }
}

/// Machine-readable error code of each kind of error.
pub open spec fn code_of(e: AppError) -> Seq<char> {
    match e {
        AppError::BadRequest(_) => "BAD_REQUEST"@,
        AppError::Unauthorized => "UNAUTHORIZED"@,
        AppError::InvalidCredentials => "INVALID_CREDENTIALS"@,
        AppError::Forbidden => "FORBIDDEN"@,
        AppError::NotFound(_) => "NOT_FOUND"@,
        AppError::Validation(_) => "VALIDATION_ERROR"@,
        AppError::Internal(_) => "INTERNAL_SERVER_ERROR"@,
    }
}

/// The message sent to the client: the text of a bad request or a missing
/// resource, a fixed text otherwise (internal details stay in the logs).
pub open spec fn public_message_of(e: AppError) -> Seq<char> {
    match e {
        AppError::BadRequest(m) => m@,
        AppError::Unauthorized => "인증이 필요합니다."@,
        AppError::InvalidCredentials => "이메일 또는 비밀번호가 올바르지 않습니다."@,
        AppError::Forbidden => "접근 권한이 없습니다."@,
        AppError::NotFound(m) => m@,
        AppError::Validation(_) => "입력값이 올바르지 않습니다."@,
        AppError::Internal(_) => "서버 내부 오류가 발생했습니다."@,
    }
}

impl AppError {
    /// The message sent to the client.
    pub fn public_message(&self) -> (r: String)
        ensures
            r@ == public_message_of(*self),
    {
        match self {
            AppError::BadRequest(m) => m.clone(),
            AppError::Unauthorized => String::from_str("인증이 필요합니다."),
            AppError::InvalidCredentials => String::from_str("이메일 또는 비밀번호가 올바르지 않습니다."),
            AppError::Forbidden => String::from_str("접근 권한이 없습니다."),
            AppError::NotFound(m) => m.clone(),
            AppError::Validation(_) => String::from_str("입력값이 올바르지 않습니다."),
            AppError::Internal(_) => String::from_str("서버 내부 오류가 발생했습니다."),
        }
    }

    /// The HTTP status code that answers this error.
    pub fn status_code(&self) -> (r: u16)
        ensures
            r == status_of(*self),
    {
        match self {
            AppError::BadRequest(_) => 400,
            AppError::Unauthorized => 401,
            AppError::InvalidCredentials => 401,
            AppError::Forbidden => 403,
            AppError::NotFound(_) => 404,
            AppError::Validation(_) => 422,
            AppError::Internal(_) => 500,
        }
    }

    /// The error code sent in the response body.
    pub fn code(&self) -> (r: &'static str)
        ensures
            r@ == code_of(*self),
    {
        match self {
            AppError::BadRequest(_) => "BAD_REQUEST",
            AppError::Unauthorized => "UNAUTHORIZED",
            AppError::InvalidCredentials => "INVALID_CREDENTIALS",
            AppError::Forbidden => "FORBIDDEN",
            AppError::NotFound(_) => "NOT_FOUND",
            AppError::Validation(_) => "VALIDATION_ERROR",
            AppError::Internal(_) => "INTERNAL_SERVER_ERROR",
        }
    }
}

/// The message of an internal error, if `r` is one.
pub open spec fn internal_message<T>(r: Result<T, AppError>) -> Option<Seq<char>> {
    match r {
        Err(AppError::Internal(m)) => Some(m@),
        _ => None,
    }
}

/// The message of a not-found error, if `r` is one.
pub open spec fn not_found_message<T>(r: Result<T, AppError>) -> Option<Seq<char>> {
    match r {
        Err(AppError::NotFound(m)) => Some(m@),
        _ => None,
    }
}

/// The message of a bad-request error, if `r` is one.
pub open spec fn bad_request_message<T>(r: Result<T, AppError>) -> Option<Seq<char>> {
    match r {
        Err(AppError::BadRequest(m)) => Some(m@),
        _ => None,
    }
}

/// The message answered when a row that must exist is missing.
pub open spec fn missing_row_message() -> Seq<char> {
    "요청한 데이터를 찾을 수 없습니다."@
}

/// The error answered for a failed database call: a missing row is
/// `NotFound`, anything else is internal, with the database's text for the logs.
pub fn database_failure(row_not_found: bool, detail: String) -> (r: AppError)
    ensures
        row_not_found ==> (r matches AppError::NotFound(m) && m@ == missing_row_message()),
        !row_not_found ==> r == AppError::Internal(detail),
{
    if row_not_found {
        AppError::NotFound(String::from_str("요청한 데이터를 찾을 수 없습니다."))
    } else {
        AppError::Internal(detail)
    }
}

} // verus!
