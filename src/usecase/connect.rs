//! Resolving a connect request into its chain of hops.

use vstd::prelude::*;
use crate::entity::profiles;
use crate::error::{AppError, AppResult};
use crate::store::{chain_of, index_of_id, index_of_label, key_path_of, ProfileStore};
use crate::text::{hash_id, hash_id_string};
use crate::usecase::{is_hop_of, ConnectHop, ConnectInput, ConnectPlan};

verus! {

/// The position of the profile that `input` names: by id when one is
/// given, else by label.
pub open spec fn base_index(ps: Seq<profiles::Model>, input: ConnectInput) -> Option<int> {
    match input.id {
        Some(id) => index_of_id(ps, id),
        None => index_of_label(ps, input.target@),
    }
}

/// How a missing base profile is named in the error.
pub open spec fn base_name(input: ConnectInput) -> Seq<char> {
    match input.id {
        Some(id) => hash_id(id as nat),
        None => input.target@,
    }
}

/// Every via-id of `chain` names a stored profile.
pub open spec fn all_present(ps: Seq<profiles::Model>, chain: Seq<u32>) -> bool {
    forall|m: int| 0 <= m < chain.len() ==> (#[trigger] index_of_id(ps, chain[m])) is Some
}

/// `k` is the first position of `chain` whose via-id names no profile.
pub open spec fn first_missing_at(ps: Seq<profiles::Model>, chain: Seq<u32>, k: int) -> bool {
    &&& 0 <= k < chain.len()
    &&& index_of_id(ps, chain[k]) is None
    &&& all_present(ps, chain.take(k))
}

/// `name` names the first via-id of `chain` that no profile has.
pub open spec fn names_first_missing(ps: Seq<profiles::Model>, chain: Seq<u32>, name: Seq<char>) -> bool {
    exists|k: int| #[trigger] first_missing_at(ps, chain, k) && name == hash_id(chain[k] as nat)
}

/// `hops` are the hops of `base` reached through `chain`: one per via-id,
/// in order, then `base` itself.
pub open spec fn is_plan_for(
    hops: Seq<ConnectHop>,
    ps: Seq<profiles::Model>,
    ls: Seq<crate::entity::local_auth::Model>,
    chain: Seq<u32>,
    base: profiles::Model,
) -> bool {
    &&& hops.len() == chain.len() + 1
    &&& forall|m: int|
        0 <= m < chain.len() ==> is_hop_of(
            #[trigger] hops[m],
            ps[index_of_id(ps, chain[m]).unwrap()],
            key_path_of(ls, chain[m]),
        )
    &&& is_hop_of(hops[chain.len() as int], base, key_path_of(ls, base.id))
}

/// A profile that owns no route edges resolves to exactly one hop: the
/// profile itself, with its label (or `#<id>`), its port (or 22) and its
/// key path.
pub proof fn lemma_plan_without_chain(
    hops: Seq<ConnectHop>,
    ps: Seq<profiles::Model>,
    ls: Seq<crate::entity::local_auth::Model>,
    base: profiles::Model,
)
    requires
        is_plan_for(hops, ps, ls, Seq::empty(), base),
    ensures
        hops.len() == 1,
        is_hop_of(hops[0], base, key_path_of(ls, base.id)),
{
}

/// The hop that profile `p` becomes, with its recorded key path.
pub fn build_connect_hop(p: &profiles::Model, key_path_local: Option<String>) -> (r: ConnectHop)
    ensures
        is_hop_of(r, *p, key_path_local),
{
    let label = match &p.label {
        Some(l) => l.clone(),
        None => hash_id_string(p.id),
    };
    let port = match p.port {
        Some(n) => n,
        None => 22,
    };
    ConnectHop {
        id: p.id,
        label,
        host: p.hostname.clone(),
        user: p.username.clone(),
        port,
        auth_mode: p.auth_mode,
        key_path_local,
    }
}

/// Resolves `input` into its plan: the hops of the profile's own stored
/// jump chain, in order, then the profile itself. The chains of the hops
/// are not followed.
pub fn build_connect_plan(store: &ProfileStore, input: ConnectInput) -> (r: AppResult<ConnectPlan>)
    ensures
        ({
            let ps = store.profile_rows();
            match base_index(ps, input) {
                None => r matches Err(AppError::ProfileNotFound(t)) && t@ == base_name(input),
                Some(b) => {
                    let chain = chain_of(store.route_rows(), ps[b].id);
                    &&& all_present(ps, chain) ==> (r matches Ok(plan) && is_plan_for(
                        plan.hops@,
                        ps,
                        store.key_rows(),
                        chain,
                        ps[b],
                    ))
                    &&& !all_present(ps, chain) ==> (r matches Err(AppError::ProfileRouteTargetNotFound(t))
                        && names_first_missing(ps, chain, t@))
                },
            }
        }),
{
    let ghost ps = store.profile_rows();
    let profiles = store.profiles();
    let base_idx: usize = match input.id {
        Some(id) => match store.find_by_id(id) {
            Some(i) => i,
            None => {
                return Err(AppError::ProfileNotFound(hash_id_string(id)));
            },
        },
        None => match store.find_by_label(input.target.as_str()) {
            Some(i) => i,
            None => {
                return Err(AppError::ProfileNotFound(input.target));
            },
        },
    };
    proof {
        match input.id {
            Some(id) => crate::store::lemma_index_of_id(ps, id),
            None => crate::store::lemma_index_of_label(ps, input.target@),
        }
    }
    let base = &profiles[base_idx];
    let via_ids = store.chain_ids(base.id);
    let ghost chain = via_ids@;
    let mut hops: Vec<ConnectHop> = Vec::new();
    let mut k: usize = 0;
    while k < via_ids.len()
        invariant
            profiles@ == ps,
            ps == store.profile_rows(),
            base_index(ps, input) == Some(base_idx as int),
            chain == chain_of(store.route_rows(), ps[base_idx as int].id),
            chain == via_ids@,
            k <= via_ids.len(),
            hops.len() == k,
            all_present(ps, chain.take(k as int)),
            forall|m: int|
                0 <= m < k ==> is_hop_of(
                    #[trigger] hops@[m],
                    ps[index_of_id(ps, chain[m]).unwrap()],
                    key_path_of(store.key_rows(), chain[m]),
                ),
        decreases via_ids.len() - k,
    {
        let vid = via_ids[k];
        match store.find_by_id(vid) {
            None => {
                let msg = hash_id_string(vid);
                assert(first_missing_at(ps, chain, k as int) && msg@ == hash_id(chain[k as int] as nat));
                assert(names_first_missing(ps, chain, msg@));
                return Err(AppError::ProfileRouteTargetNotFound(msg));
            },
            Some(j) => {
                proof { crate::store::lemma_index_of_id(ps, vid); }
                hops.push(build_connect_hop(&profiles[j], store.key_path(vid)));
                assert forall|m: int| 0 <= m < k + 1 implies (#[trigger] index_of_id(ps, chain.take(k + 1)[m])) is Some by {
                    if m < k {
                        assert(chain.take(k + 1)[m] == chain.take(k as int)[m]);
                    }
                }
            },
        }
        k = k + 1;
    }
    assert(chain.take(k as int) =~= chain);
    hops.push(build_connect_hop(base, store.key_path(base.id)));
    Ok(ConnectPlan { hops })
}

} // verus!
