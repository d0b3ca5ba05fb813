//! The error taxonomy shared by every fallible operation of the core, and the
//! single boundary mapping from each variant to a fixed HTTP status code and a
//! fixed, non-leaking client message.

use vstd::prelude::*;
use vstd::string::StringExecFns;

verus! {

/// Why an action was refused with HTTP 403.
#[derive(Debug, Clone, Copy, PartialEq, Eq, Structural)]
pub enum ForbiddenReason {
    MissingPermission,
    AccountDeactivated,
    IncorrectPassword,
    IncorrectCode,
}

/// Why a request body was rejected with HTTP 400.
#[derive(Debug, Clone, Copy, PartialEq, Eq, Structural)]
pub enum InputInvalidReason {
    NoPasswordSupplied,
    NoFieldsToUpdate,
}

/// Why a creation conflicts with existing state (HTTP 409).
#[derive(Debug, Clone, Copy, PartialEq, Eq, Structural)]
pub enum ConflictReason {
    EmailTaken,
}

/// How a credential-store lookup failed, as reported by the caller that ran
/// the query.
#[derive(Debug, Clone, Copy, PartialEq, Eq, Structural)]
pub enum StoreErrorKind {
    NotFound,
    Other,
}

/// Every typed error the core can produce. Each variant bubbles unchanged to
/// the HTTP boundary, which maps it through [`ApiError::status_and_message`].
#[derive(Debug, Clone, PartialEq, Eq)]
pub enum ApiError {
    Forbidden(ForbiddenReason),
    Conflict(ConflictReason),
    InputInvalid(InputInvalidReason),
    Unauthorized,
    PasswordError,
    ValidationError,
    InvalidToken,
    DatabaseError(StoreErrorKind),
    GeneralOversight(String),
}

/// The HTTP status code owed to each error variant.
pub open spec fn status_of(e: ApiError) -> int {
    match e {
        ApiError::Forbidden(_) => 403,
        ApiError::Conflict(_) => 409,
        ApiError::InputInvalid(_) => 400,
        ApiError::Unauthorized => 401,
        ApiError::PasswordError => 500,
        ApiError::ValidationError => 400,
        ApiError::InvalidToken => 401,
        ApiError::DatabaseError(k) => if k is NotFound {
            404
        } else {
            500
        },
        ApiError::GeneralOversight(_) => 500,
    }
}

/// The fixed client-facing message owed to each error variant. Internal
/// detail (the oversight text, the store error) never appears here.
pub open spec fn message_of(e: ApiError) -> Seq<char> {
    match e {
        ApiError::Forbidden(r) => match r {
            ForbiddenReason::MissingPermission => "You lack permission to do this action"@,
            ForbiddenReason::AccountDeactivated => "Your account has been deactivated"@,
            ForbiddenReason::IncorrectPassword => "Incorrect password"@,
            ForbiddenReason::IncorrectCode => "Incorrect code"@,
        },
        ApiError::Conflict(r) => match r {
            ConflictReason::EmailTaken => "This email is already taken"@,
        },
        ApiError::InputInvalid(r) => match r {
            InputInvalidReason::NoPasswordSupplied => "No password supplied"@,
            InputInvalidReason::NoFieldsToUpdate => "No fields to update provided"@,
        },
        ApiError::Unauthorized => "You are not logged in"@,
        ApiError::PasswordError => "Internal server error"@,
        ApiError::ValidationError => "Invalid email"@,
        ApiError::InvalidToken => "Invalid token"@,
        ApiError::DatabaseError(k) => if k is NotFound {
            "Not found"@
        } else {
            "Database error"@
        },
        ApiError::GeneralOversight(_) => "Internal server error"@,
    }
}

impl ApiError {
    /// The boundary adapter's decision: the HTTP status code and the fixed
    /// message for this error. The transport layer only wraps the pair into a
    /// response; it adds no information of its own.
    pub fn status_and_message(&self) -> (r: (u16, String))
        ensures
            r.0 as int == status_of(*self),
            r.1@ == message_of(*self),
    {
        match self {
            ApiError::Forbidden(reason) => {
                let msg = match reason {
                    ForbiddenReason::MissingPermission => String::from_str(
                        "You lack permission to do this action",
                    ),
                    ForbiddenReason::AccountDeactivated => String::from_str(
                        "Your account has been deactivated",
                    ),
                    ForbiddenReason::IncorrectPassword => String::from_str("Incorrect password"),
                    ForbiddenReason::IncorrectCode => String::from_str("Incorrect code"),
                };
                (403, msg)
            },
            ApiError::Conflict(reason) => {
                let msg = match reason {
                    ConflictReason::EmailTaken => String::from_str("This email is already taken"),
                };
                (409, msg)
            },
            ApiError::InputInvalid(reason) => {
                let msg = match reason {
                    InputInvalidReason::NoPasswordSupplied => String::from_str(
                        "No password supplied",
                    ),
                    InputInvalidReason::NoFieldsToUpdate => String::from_str(
                        "No fields to update provided",
                    ),
                };
                (400, msg)
            },
            ApiError::Unauthorized => (401, String::from_str("You are not logged in")),
            ApiError::PasswordError => (500, String::from_str("Internal server error")),
            ApiError::ValidationError => (400, String::from_str("Invalid email")),
            ApiError::InvalidToken => (401, String::from_str("Invalid token")),
            ApiError::DatabaseError(kind) => match kind {
                StoreErrorKind::NotFound => (404, String::from_str("Not found")),
                StoreErrorKind::Other => (500, String::from_str("Database error")),
            },
            ApiError::GeneralOversight(_) => (500, String::from_str("Internal server error")),
        }
    }
}

} // verus!
