//! The error taxonomy of the session manager.

use vstd::prelude::*;

verus! {

/// A failure reported synchronously to a caller of the API surface.
///
/// Failures that occur while a dispatch loop is already streaming are
/// never returned through this type; they are surfaced as sink events.
#[derive(Debug)]
pub enum AppError {
    Network(String),
    Auth(String),
    Validation(String),
    Internal(String),
    NotFound(String),
}

impl AppError {
    /// The human-readable reason carried by the error.
    pub open spec fn spec_message(&self) -> Seq<char> {
        match self {
            AppError::Network(m) => m@,
            AppError::Auth(m) => m@,
            AppError::Validation(m) => m@,
            AppError::Internal(m) => m@,
            AppError::NotFound(m) => m@,
        }
    }

    /// The name of the error's kind, as shown to the user interface.
    pub fn kind_name(&self) -> (r: &'static str)
        ensures
            (match self {
                AppError::Network(_) => r@ == "Network"@,
                AppError::Auth(_) => r@ == "Auth"@,
                AppError::Validation(_) => r@ == "Validation"@,
                AppError::Internal(_) => r@ == "Internal"@,
                AppError::NotFound(_) => r@ == "NotFound"@,
            }),
    {
        match self {
            AppError::Network(_) => "Network",
            AppError::Auth(_) => "Auth",
            AppError::Validation(_) => "Validation",
            AppError::Internal(_) => "Internal",
            AppError::NotFound(_) => "NotFound",
        }
    }

    /// The human-readable reason carried by the error.
    pub fn message(&self) -> (r: &String)
        ensures
            r@ == self.spec_message(),
    {
        match self {
            AppError::Network(m) => m,
            AppError::Auth(m) => m,
            AppError::Validation(m) => m,
            AppError::Internal(m) => m,
            AppError::NotFound(m) => m,
        }
    }
}

} // verus!
