//! The public error envelope: a stable code, a message, whether retrying can
//! help, and the id of the request that failed.

use vstd::prelude::*;

verus! {

/// The public error codes.
#[derive(Clone, Copy, Debug, PartialEq, Eq, Structural)]
pub enum ErrorCode {
    AuthInvalid,
    ValidationFailed,
    PairingCodeInvalid,
    PairingCodeExpired,
    PairingCodeUsed,
    PairingLocked,
    DeviceAlreadyBound,
    RateLimited,
    NotFound,
    Conflict,
    SourceUnavailable,
    ModelUnavailable,
    Internal,
}

/// The name of a code on the wire: the variant's name in
/// SCREAMING_SNAKE_CASE.
pub open spec fn code_wire_name(code: ErrorCode) -> Seq<char> {
    match code {
        ErrorCode::AuthInvalid => "AUTH_INVALID"@,
        ErrorCode::ValidationFailed => "VALIDATION_FAILED"@,
        ErrorCode::PairingCodeInvalid => "PAIRING_CODE_INVALID"@,
        ErrorCode::PairingCodeExpired => "PAIRING_CODE_EXPIRED"@,
        ErrorCode::PairingCodeUsed => "PAIRING_CODE_USED"@,
        ErrorCode::PairingLocked => "PAIRING_LOCKED"@,
        ErrorCode::DeviceAlreadyBound => "DEVICE_ALREADY_BOUND"@,
        ErrorCode::RateLimited => "RATE_LIMITED"@,
        ErrorCode::NotFound => "NOT_FOUND"@,
        ErrorCode::Conflict => "CONFLICT"@,
        ErrorCode::SourceUnavailable => "SOURCE_UNAVAILABLE"@,
        ErrorCode::ModelUnavailable => "MODEL_UNAVAILABLE"@,
        ErrorCode::Internal => "INTERNAL"@,
    }
}

impl ErrorCode {
    /// The name of the code on the wire.
    pub fn wire_name(&self) -> (r: &'static str)
        ensures
            r@ == code_wire_name(*self),
    {
        match self {
            ErrorCode::AuthInvalid => "AUTH_INVALID",
            ErrorCode::ValidationFailed => "VALIDATION_FAILED",
            ErrorCode::PairingCodeInvalid => "PAIRING_CODE_INVALID",
            ErrorCode::PairingCodeExpired => "PAIRING_CODE_EXPIRED",
            ErrorCode::PairingCodeUsed => "PAIRING_CODE_USED",
            ErrorCode::PairingLocked => "PAIRING_LOCKED",
            ErrorCode::DeviceAlreadyBound => "DEVICE_ALREADY_BOUND",
            ErrorCode::RateLimited => "RATE_LIMITED",
            ErrorCode::NotFound => "NOT_FOUND",
            ErrorCode::Conflict => "CONFLICT",
            ErrorCode::SourceUnavailable => "SOURCE_UNAVAILABLE",
            ErrorCode::ModelUnavailable => "MODEL_UNAVAILABLE",
            ErrorCode::Internal => "INTERNAL",
        }
    }
}

/// The `error` member of the envelope.
#[derive(Clone, Debug, PartialEq, Eq)]
pub struct ErrorBody {
    pub code: ErrorCode,
    pub message: String,
    pub retryable: bool,
}

/// The envelope of a failed request.
#[derive(Clone, Debug, PartialEq, Eq)]
pub struct ErrorResponse {
    pub error: ErrorBody,
    pub request_id: String,
}

/// A failure that is reported to clients.
#[derive(Debug)]
pub struct AppError {
    pub code: ErrorCode,
    pub message: String,
    pub retryable: bool,
}

impl AppError {
    /// An error with the given code, message and retry hint.
    pub fn new(code: ErrorCode, message: String, retryable: bool) -> (r: AppError)
        ensures
            r.code == code,
            r.message@ == message@,
            r.retryable == retryable,
    {
        AppError { code, message, retryable }
    }

    /// The envelope that reports this error for the request `request_id`.
    pub fn response(&self, request_id: String) -> (r: ErrorResponse)
        ensures
            r.error.code == self.code,
            r.error.message@ == self.message@,
            r.error.retryable == self.retryable,
            r.request_id@ == request_id@,
    {
        ErrorResponse {
            error: ErrorBody {
                code: self.code,
                message: self.message.clone(),
                retryable: self.retryable,
            },
            request_id,
        }
    }
}

} // verus!
