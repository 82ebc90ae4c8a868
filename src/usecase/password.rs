//! Storing, reading and clearing the password of a profile named by label.

use vstd::prelude::*;
use crate::entity::profiles::Model;
use crate::error::{AppError, AppResult};
use crate::infra::password_store::PasswordStore;
use crate::store::{index_of_label, ProfileStore};

verus! {

/// The profile labelled `label`.
pub fn find_profile_id_by_label(store: &ProfileStore, label: String) -> (r: AppResult<Model>)
    ensures
        match index_of_label(store.profile_rows(), label@) {
            None => r matches Err(AppError::ProfileNotFound(t)) && t@ == label@,
            Some(i) => r == Ok::<Model, AppError>(store.profile_rows()[i]),
        },
{
    let ghost ps = store.profile_rows();
    match store.find_by_label(label.as_str()) {
        Some(i) => {
            proof { crate::store::lemma_index_of_label(ps, label@); }
            Ok(store.profiles()[i].duplicate())
        },
        None => Err(AppError::ProfileNotFound(label)),
    }
}

/// Stores `password` (or clears it, when `None`) for the profile labelled
/// `label`.
pub fn set_profile_password_by_label<S: PasswordStore>(
    store: &ProfileStore,
    passwords: &S,
    label: String,
    password: Option<String>,
) -> (r: AppResult<()>)
    ensures
        index_of_label(store.profile_rows(), label@) is None ==> (r matches Err(
            AppError::ProfileNotFound(t),
        ) && t@ == label@),
{
    let model = find_profile_id_by_label(store, label)?;
    passwords.set_profile_password(model.id, password)
}

/// The stored password of the profile labelled `label`, if any.
pub fn get_profile_password_by_label<S: PasswordStore>(
    store: &ProfileStore,
    passwords: &S,
    label: String,
) -> (r: AppResult<Option<String>>)
    ensures
        index_of_label(store.profile_rows(), label@) is None ==> (r matches Err(
            AppError::ProfileNotFound(t),
        ) && t@ == label@),
{
    let model = find_profile_id_by_label(store, label)?;
    passwords.get_profile_password(model.id)
}

/// Clears the stored password of the profile labelled `label`.
pub fn clear_profile_password_by_label<S: PasswordStore>(
    store: &ProfileStore,
    passwords: &S,
    label: String,
) -> (r: AppResult<()>)
    ensures
        index_of_label(store.profile_rows(), label@) is None ==> (r matches Err(
            AppError::ProfileNotFound(t),
        ) && t@ == label@),
{
    let model = find_profile_id_by_label(store, label)?;
    passwords.set_profile_password(model.id, None)
}

} // verus!
