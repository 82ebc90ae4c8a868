//! Stored passwords, keyed by profile id, and how the answers of the
//! operating system's credential store are read.

use vstd::prelude::*;
use crate::error::{AppError, AppResult};
use crate::text::{decimal, push_decimal};

verus! {

/// A place where a password per profile can be kept.
pub trait PasswordStore {
    /// Stores `password` for the profile, or clears it when `None`.
    fn set_profile_password(&self, profile_id: u32, password: Option<String>) -> AppResult<()>;

    /// The stored password of the profile; `None` when none is stored.
    fn get_profile_password(&self, profile_id: u32) -> AppResult<Option<String>>;
}

/// A store that keeps nothing: used where no credential store exists.
pub struct NoopPasswordStore;

impl PasswordStore for NoopPasswordStore {
    fn set_profile_password(&self, _profile_id: u32, _password: Option<String>) -> AppResult<()> {
        Ok(())
    }

    fn get_profile_password(&self, _profile_id: u32) -> AppResult<Option<String>> {
        Ok(None)
    }
}

/// The operating system's credential store, under one service name.
#[derive(Clone)]
pub struct OsPasswordStore {
    service: String,
}

/// What the credential store answered.
#[derive(Debug, Clone, PartialEq, Eq)]
pub enum CredentialAnswer<T> {
    /// The operation succeeded.
    Done(T),
    /// No entry is stored for the profile.
    NoEntry,
    /// The store failed, with this message.
    Failed(String),
}

/// The account name under which the password of `profile_id` is kept.
pub open spec fn account_of(profile_id: u32) -> Seq<char> {
    "profile:"@ + decimal(profile_id as nat)
}

/// `what` failed for profile `profile_id`, for the reason `reason`.
pub open spec fn store_failure(what: Seq<char>, profile_id: u32, reason: Seq<char>) -> Seq<char> {
    "failed to "@ + what + " for profile #"@ + decimal(profile_id as nat) + ": "@ + reason
}

fn failure(what: &str, profile_id: u32, reason: &str) -> (r: AppError)
    ensures
        r matches AppError::PasswordStoreError(t) && t@ == store_failure(what@, profile_id, reason@),
{
    let mut out = String::from_str("failed to ");
    out.append(what);
    out.append(" for profile #");
    push_decimal(&mut out, profile_id);
    out.append(": ");
    out.append(reason);
    AppError::PasswordStoreError(out)
}

impl OsPasswordStore {
    pub closed spec fn service_name(&self) -> Seq<char> {
        self.service@
    }

    /// The store for the service `service`.
    pub fn new(service: String) -> (r: OsPasswordStore)
        ensures
            r.service_name() == service@,
    {
        OsPasswordStore { service }
    }

    /// The service name that entries are kept under.
    pub fn service(&self) -> (r: &str)
        ensures
            r@ == self.service_name(),
    {
        self.service.as_str()
    }

    /// The account name under which the password of `profile_id` is kept.
    pub fn account(profile_id: u32) -> (r: String)
        ensures
            r@ == account_of(profile_id),
    {
        let mut out = String::from_str("profile:");
        push_decimal(&mut out, profile_id);
        out
    }

    /// The error for an entry that could not be opened.
    pub fn entry_error(profile_id: u32, reason: &str) -> (r: AppError)
        ensures
            r matches AppError::PasswordStoreError(t) && t@ == store_failure(
                "create keyring entry"@,
                profile_id,
                reason@,
            ),
    {
        failure("create keyring entry", profile_id, reason)
    }

    /// The result of reading the password: a missing entry is no error.
    pub fn read_result(profile_id: u32, answer: CredentialAnswer<String>) -> (r: AppResult<Option<String>>)
        ensures
            answer matches CredentialAnswer::Done(p) ==> r == Ok::<Option<String>, AppError>(Some(p)),
            answer is NoEntry ==> r == Ok::<Option<String>, AppError>(None),
            answer matches CredentialAnswer::Failed(m) ==> (r matches Err(AppError::PasswordStoreError(t))
                && t@ == store_failure("get password"@, profile_id, m@)),
    {
        match answer {
            CredentialAnswer::Done(p) => Ok(Some(p)),
            CredentialAnswer::NoEntry => Ok(None),
            CredentialAnswer::Failed(m) => Err(failure("get password", profile_id, m.as_str())),
        }
    }

    /// The result of storing a password.
    pub fn write_result(profile_id: u32, answer: Result<(), String>) -> (r: AppResult<()>)
        ensures
            answer is Ok ==> r is Ok,
            answer matches Err(m) ==> (r matches Err(AppError::PasswordStoreError(t))
                && t@ == store_failure("set password"@, profile_id, m@)),
    {
        match answer {
            Ok(()) => Ok(()),
            Err(m) => Err(failure("set password", profile_id, m.as_str())),
        }
    }

    /// The result of clearing a password: clearing a missing entry is no
    /// error.
    pub fn clear_result(profile_id: u32, answer: CredentialAnswer<()>) -> (r: AppResult<()>)
        ensures
            answer is Done ==> r is Ok,
            answer is NoEntry ==> r is Ok,
            answer matches CredentialAnswer::Failed(m) ==> (r matches Err(AppError::PasswordStoreError(t))
                && t@ == store_failure("delete password"@, profile_id, m@)),
    {
        match answer {
            CredentialAnswer::Failed(m) => Err(failure("delete password", profile_id, m.as_str())),
            _ => Ok(()),
        }
    }
}

} // verus!
