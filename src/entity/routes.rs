//! Route edges: one link of a profile's jump chain.

use vstd::prelude::*;

verus! {

/// The `seq`-th hop (counting from zero) of the jump chain that profile
/// `profile_id` owns goes through profile `via_profile_id`.
#[derive(Debug, Clone, Copy, PartialEq, Eq, Structural)]
pub struct Model {
    pub profile_id: u32,
    pub seq: u32,
    pub via_profile_id: u32,
}

} // verus!
