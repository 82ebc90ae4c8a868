//! Local key-path records: which private key file a profile uses.

use vstd::prelude::*;

verus! {

/// The private key file recorded on this machine for profile `profile_id`.
#[derive(Debug, Clone, PartialEq, Eq)]
pub struct Model {
    pub id: u32,
    pub profile_id: u32,
    pub key_path_local: Option<String>,
}

} // verus!
