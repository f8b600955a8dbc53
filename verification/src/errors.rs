//! The uniform response envelope and the error taxonomy: every handler
//! returns either a success envelope or an `ApiError` carrying an HTTP
//! status code and a message.

use vstd::prelude::*;

verus! {

/// HTTP status for a rejected input.
pub const STATUS_BAD_REQUEST: u16 = 400;

/// HTTP status for a missing, malformed or expired credential.
pub const STATUS_UNAUTHORIZED: u16 = 401;

/// HTTP status for an authenticated caller that lacks a capability.
pub const STATUS_FORBIDDEN: u16 = 403;

/// HTTP status for a missing entity.
pub const STATUS_NOT_FOUND: u16 = 404;

/// HTTP status for a caller that exceeded a rate limit.
pub const STATUS_TOO_MANY_REQUESTS: u16 = 429;

/// HTTP status for a store or provider failure.
pub const STATUS_INTERNAL_SERVER_ERROR: u16 = 500;

/// Success envelope: `success` is true, `data` carries the payload and
/// `message` is optional.
pub struct ApiResponse<T> {
    pub success: bool,
    pub message: Option<String>,
    pub data: Option<T>,
}

/// Error envelope: an HTTP status code and a human-readable message.
#[derive(Debug)]
pub struct ApiError {
    pub status: u16,
    pub message: String,
}

impl<T> ApiResponse<T> {
    pub fn success(data: T) -> (r: ApiResponse<T>)
        ensures
            r.success,
            r.message is None,
            r.data == Some(data),
    {
        ApiResponse { success: true, message: None, data: Some(data) }
    }

    pub fn success_with_message(message: String, data: T) -> (r: ApiResponse<T>)
        ensures
            r.success,
            r.message == Some(message),
            r.data == Some(data),
    {
        ApiResponse { success: true, message: Some(message), data: Some(data) }
    }

    pub fn error(message: String) -> (r: ApiResponse<()>)
        ensures
            !r.success,
            r.message == Some(message),
            r.data is None,
    {
        ApiResponse { success: false, message: Some(message), data: None }
    }
}

impl ApiError {
    pub fn bad_request(message: String) -> (r: ApiError)
        ensures
            r.status == STATUS_BAD_REQUEST,
            r.message == message,
    {
        ApiError { status: STATUS_BAD_REQUEST, message }
    }

    pub fn unauthorized(message: String) -> (r: ApiError)
        ensures
            r.status == STATUS_UNAUTHORIZED,
            r.message == message,
    {
        ApiError { status: STATUS_UNAUTHORIZED, message }
    }

    pub fn forbidden(message: String) -> (r: ApiError)
        ensures
            r.status == STATUS_FORBIDDEN,
            r.message == message,
    {
        ApiError { status: STATUS_FORBIDDEN, message }
    }

    pub fn not_found(message: String) -> (r: ApiError)
        ensures
            r.status == STATUS_NOT_FOUND,
            r.message == message,
    {
        ApiError { status: STATUS_NOT_FOUND, message }
    }

    pub fn too_many_requests(message: String) -> (r: ApiError)
        ensures
            r.status == STATUS_TOO_MANY_REQUESTS,
            r.message == message,
    {
        ApiError { status: STATUS_TOO_MANY_REQUESTS, message }
    }

    pub fn internal_error(message: String) -> (r: ApiError)
        ensures
            r.status == STATUS_INTERNAL_SERVER_ERROR,
            r.message == message,
    {
        ApiError { status: STATUS_INTERNAL_SERVER_ERROR, message }
    }
}

} // verus!
