//! The library's error type.

use vstd::prelude::*;

verus! {

/// Everything that can go wrong in the library, each failure carrying the
/// offending identifier or the underlying message.
#[derive(Debug, Clone, PartialEq, Eq)]
pub enum AppError {
    /// The backing store failed.
    Db(String),
    /// An operating-system level I/O operation failed.
    Io(String),
    ProfileNotFound(String),
    ProfileAlreadyExists(String),
    ProfileNothingToUpdate(String),
    /// A jump chain names a profile that does not exist.
    ProfileRouteTargetNotFound(String),
    InvalidAuthMode(String),
    PasswordStoreError(String),
    IoError(String),
    InternalError(String),
}

pub type AppResult<T> = Result<T, AppError>;

/// The human-readable prefix of each error kind.
pub open spec fn error_prefix(e: AppError) -> Seq<char> {
    match e {
        AppError::Db(_) => "database error: "@,
        AppError::Io(_) => "io error: "@,
        AppError::ProfileNotFound(_) => "profile not found: "@,
        AppError::ProfileAlreadyExists(_) => "profile already exists: "@,
        AppError::ProfileNothingToUpdate(_) => "nothing to update for profile: "@,
        AppError::ProfileRouteTargetNotFound(_) => "route target profile not found for label: "@,
        AppError::InvalidAuthMode(_) => "invalid auth mode: "@,
        AppError::PasswordStoreError(_) => "password store error: "@,
        AppError::IoError(_) => "io error: "@,
        AppError::InternalError(_) => "internal server error: "@,
    }
}

/// The detail that an error carries.
pub open spec fn error_detail(e: AppError) -> Seq<char> {
    match e {
        AppError::Db(s) => s@,
        AppError::Io(s) => s@,
        AppError::ProfileNotFound(s) => s@,
        AppError::ProfileAlreadyExists(s) => s@,
        AppError::ProfileNothingToUpdate(s) => s@,
        AppError::ProfileRouteTargetNotFound(s) => s@,
        AppError::InvalidAuthMode(s) => s@,
        AppError::PasswordStoreError(s) => s@,
        AppError::IoError(s) => s@,
        AppError::InternalError(s) => s@,
    }
}

impl AppError {
    /// The message shown to a user: the kind's prefix, then the detail.
    pub fn message(&self) -> (r: String)
        ensures
            r@ == error_prefix(*self) + error_detail(*self),
    {
        let (prefix, detail): (&str, &String) = match self {
            AppError::Db(s) => ("database error: ", s),
            AppError::Io(s) => ("io error: ", s),
            AppError::ProfileNotFound(s) => ("profile not found: ", s),
            AppError::ProfileAlreadyExists(s) => ("profile already exists: ", s),
            AppError::ProfileNothingToUpdate(s) => ("nothing to update for profile: ", s),
            AppError::ProfileRouteTargetNotFound(s) => ("route target profile not found for label: ", s),
            AppError::InvalidAuthMode(s) => ("invalid auth mode: ", s),
            AppError::PasswordStoreError(s) => ("password store error: ", s),
            AppError::IoError(s) => ("io error: ", s),
            AppError::InternalError(s) => ("internal server error: ", s),
        };
        let mut out = String::from_str(prefix);
        out.append(detail.as_str());
        out
    }
}

} // verus!
