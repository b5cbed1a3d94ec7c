//! The library's error type.
use vstd::prelude::*;

verus! {

/// Errors that the library's logic reports. Errors of the outside world
/// (I/O, the database, image decoding) are raised around the library, not in it.
#[derive(Debug, Clone, PartialEq, Eq)]
pub enum AppError {
    InvalidRoot(String),
    NotFound(String),
    Cancelled,
    UnsafePath(String),
    InvalidArgument(String),
}

pub type AppResult<T> = Result<T, AppError>;

/// `e` is an invalid-argument error carrying exactly `message`.
pub open spec fn is_invalid_argument(e: AppError, message: Seq<char>) -> bool {
    e matches AppError::InvalidArgument(m) && m@ == message
}

/// `e` is an unsafe-path error for exactly `path`.
pub open spec fn is_unsafe_path(e: AppError, path: Seq<char>) -> bool {
    e matches AppError::UnsafePath(p) && p@ == path
}

impl AppError {
    /// The error's message, as the application shows it.
    pub fn message(&self) -> (r: String)
        ensures
            match self {
                AppError::InvalidRoot(p) => r@ == "the selected path is not a readable directory: "@ + p@,
                AppError::NotFound(p) => r@ == "record not found: "@ + p@,
                AppError::Cancelled => r@ == "operation cancelled"@,
                AppError::UnsafePath(p) => r@ == "security boundary rejected path: "@ + p@,
                AppError::InvalidArgument(p) => r@ == "invalid argument: "@ + p@,
            },
    {
        match self {
            AppError::InvalidRoot(p) => crate::text::concat(
                "the selected path is not a readable directory: ",
                p.as_str(),
            ),
            AppError::NotFound(p) => crate::text::concat("record not found: ", p.as_str()),
            AppError::Cancelled => "operation cancelled".to_owned(),
            AppError::UnsafePath(p) => crate::text::concat(
                "security boundary rejected path: ",
                p.as_str(),
            ),
            AppError::InvalidArgument(p) => crate::text::concat("invalid argument: ", p.as_str()),
        }
    }
}

} // verus!
