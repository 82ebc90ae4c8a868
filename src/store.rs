//! The profile/route store: profiles, the route edges of their jump chains
//! and the local key-path records, with the lookups and writes that the use
//! cases are built from.

use vstd::prelude::*;
use crate::entity::{local_auth, profiles, routes};
use crate::error::AppError;
use crate::text::same_text;

verus! {

/// Whether profile `p` carries the label `label`.
pub open spec fn has_label(p: profiles::Model, label: Seq<char>) -> bool {
    p.label matches Some(l) && l@ == label
}

/// The position of the profile with id `id` in `ps` (the last one, should
/// there be several).
pub open spec fn index_of_id(ps: Seq<profiles::Model>, id: u32) -> Option<int>
    decreases ps.len(),
{
    if ps.len() == 0 {
        None
    } else if ps.last().id == id {
        Some(ps.len() - 1)
    } else {
        index_of_id(ps.drop_last(), id)
    }
}

/// The position of the profile labelled `label` in `ps` (the last one,
/// should there be several).
pub open spec fn index_of_label(ps: Seq<profiles::Model>, label: Seq<char>) -> Option<int>
    decreases ps.len(),
{
    if ps.len() == 0 {
        None
    } else if has_label(ps.last(), label) {
        Some(ps.len() - 1)
    } else {
        index_of_label(ps.drop_last(), label)
    }
}

/// The route edges of `rs` that `owner` owns, in stored order.
pub open spec fn owned_routes(rs: Seq<routes::Model>, owner: u32) -> Seq<routes::Model>
    decreases rs.len(),
{
    if rs.len() == 0 {
        Seq::empty()
    } else if rs.last().profile_id == owner {
        owned_routes(rs.drop_last(), owner).push(rs.last())
    } else {
        owned_routes(rs.drop_last(), owner)
    }
}

/// The via-ids of `owner`'s jump chain, first bastion first.
pub open spec fn chain_of(rs: Seq<routes::Model>, owner: u32) -> Seq<u32> {
    owned_routes(rs, owner).map_values(|r: routes::Model| r.via_profile_id)
}

/// `rs` without the edges that `owner` owns.
pub open spec fn without_owner(rs: Seq<routes::Model>, owner: u32) -> Seq<routes::Model>
    decreases rs.len(),
{
    if rs.len() == 0 {
        Seq::empty()
    } else if rs.last().profile_id == owner {
        without_owner(rs.drop_last(), owner)
    } else {
        without_owner(rs.drop_last(), owner).push(rs.last())
    }
}

/// The edges of a chain through `ids` for `owner`: the k-th has sequence
/// number k.
pub open spec fn chain_rows(owner: u32, ids: Seq<u32>) -> Seq<routes::Model> {
    Seq::new(
        ids.len(),
        |k: int| routes::Model { profile_id: owner, seq: k as u32, via_profile_id: ids[k] },
    )
}

/// The key path recorded for profile `id` (the last record wins), if any.
pub open spec fn key_path_of(ls: Seq<local_auth::Model>, id: u32) -> Option<String>
    decreases ls.len(),
{
    if ls.len() == 0 {
        None
    } else if ls.last().profile_id == id {
        ls.last().key_path_local
    } else {
        key_path_of(ls.drop_last(), id)
    }
}

/// Ids are unique, present labels are unique, and each owner's edges are
/// stored in chain order with sequence numbers `0..n`.
pub open spec fn rows_wf(ps: Seq<profiles::Model>, rs: Seq<routes::Model>) -> bool {
    &&& forall|i: int, j: int| 0 <= i < j < ps.len() ==> ps[i].id != ps[j].id
    &&& forall|i: int, j: int|
        0 <= i < j < ps.len() && (#[trigger] ps[i].label) is Some && (#[trigger] ps[j].label) is Some
            ==> ps[i].label.unwrap()@ != ps[j].label.unwrap()@
    &&& forall|o: u32, k: int|
        0 <= k < owned_routes(rs, o).len() ==> (#[trigger] owned_routes(rs, o)[k]).seq == k
}

pub proof fn lemma_owned_routes_append(a: Seq<routes::Model>, b: Seq<routes::Model>, o: u32)
    ensures
        owned_routes(a + b, o) == owned_routes(a, o) + owned_routes(b, o),
    decreases b.len(),
{
    if b.len() == 0 {
        assert(a + b =~= a);
        assert(owned_routes(a, o) + owned_routes(b, o) =~= owned_routes(a, o));
    } else {
        lemma_owned_routes_append(a, b.drop_last(), o);
        assert((a + b).drop_last() =~= a + b.drop_last());
        assert((a + b).last() == b.last());
        if b.last().profile_id == o {
            assert(owned_routes(a + b, o) =~= owned_routes(a, o) + owned_routes(b, o));
        } else {
            assert(owned_routes(a + b, o) =~= owned_routes(a, o) + owned_routes(b, o));
        }
    }
}

pub proof fn lemma_owned_without(rs: Seq<routes::Model>, p: u32, o: u32)
    ensures
        owned_routes(without_owner(rs, p), o) == (if o == p {
            Seq::<routes::Model>::empty()
        } else {
            owned_routes(rs, o)
        }),
    decreases rs.len(),
{
    if rs.len() > 0 {
        lemma_owned_without(rs.drop_last(), p, o);
        if rs.last().profile_id != p {
            let w = without_owner(rs.drop_last(), p);
            assert(w.push(rs.last()).drop_last() =~= w);
        }
    }
}

pub proof fn lemma_owned_chain_rows(p: u32, ids: Seq<u32>, o: u32)
    ensures
        owned_routes(chain_rows(p, ids), o) == (if o == p {
            chain_rows(p, ids)
        } else {
            Seq::<routes::Model>::empty()
        }),
    decreases ids.len(),
{
    if ids.len() > 0 {
        lemma_owned_chain_rows(p, ids.drop_last(), o);
        assert(chain_rows(p, ids).drop_last() =~= chain_rows(p, ids.drop_last()));
        if o == p {
            assert(chain_rows(p, ids.drop_last()).push(chain_rows(p, ids).last())
                =~= chain_rows(p, ids));
        }
    }
}

/// Replacing the jump chain of `owner` by one through `ids` leaves exactly
/// the edges `(owner, k, ids[k])` for `k` in `0..ids.len()`, in that order,
/// so the chain reads back as `ids`; the chains of every other profile stay
/// exactly as they were.
pub proof fn lemma_replaced_chain(rs: Seq<routes::Model>, owner: u32, ids: Seq<u32>)
    requires
        ids.len() <= u32::MAX + 1,
    ensures
        ({
            let after = without_owner(rs, owner) + chain_rows(owner, ids);
            &&& owned_routes(after, owner).len() == ids.len()
            &&& forall|k: int|
                0 <= k < ids.len() ==> (#[trigger] owned_routes(after, owner)[k]).seq == k
                    && owned_routes(after, owner)[k].via_profile_id == ids[k]
                    && owned_routes(after, owner)[k].profile_id == owner
            &&& chain_of(after, owner) == ids
            &&& forall|o: u32| o != owner ==> #[trigger] owned_routes(after, o) == owned_routes(rs, o)
        }),
{
    let after = without_owner(rs, owner) + chain_rows(owner, ids);
    lemma_owned_routes_append(without_owner(rs, owner), chain_rows(owner, ids), owner);
    lemma_owned_without(rs, owner, owner);
    lemma_owned_chain_rows(owner, ids, owner);
    assert(owned_routes(after, owner) =~= chain_rows(owner, ids));
    assert(chain_of(after, owner) =~= ids);
    assert forall|o: u32| o != owner implies #[trigger] owned_routes(after, o) == owned_routes(rs, o) by {
        lemma_owned_routes_append(without_owner(rs, owner), chain_rows(owner, ids), o);
        lemma_owned_without(rs, owner, o);
        lemma_owned_chain_rows(owner, ids, o);
        assert(owned_routes(after, o) =~= owned_routes(rs, o));
    }
}

/// The largest id in `ps`, or 0 when there is none.
pub open spec fn max_id(ps: Seq<profiles::Model>) -> nat
    decreases ps.len(),
{
    if ps.len() == 0 {
        0
    } else {
        let rest = max_id(ps.drop_last());
        if ps.last().id > rest {
            ps.last().id as nat
        } else {
            rest
        }
    }
}

pub proof fn lemma_max_id(ps: Seq<profiles::Model>)
    ensures
        forall|i: int| 0 <= i < ps.len() ==> ps[i].id <= max_id(ps),
        max_id(ps) <= u32::MAX,
    decreases ps.len(),
{
    if ps.len() > 0 {
        lemma_max_id(ps.drop_last());
        assert forall|i: int| 0 <= i < ps.len() implies ps[i].id <= max_id(ps) by {
            if i < ps.len() - 1 {
                assert(ps.drop_last()[i] == ps[i]);
            }
        }
    }
}

pub proof fn lemma_index_of_id(ps: Seq<profiles::Model>, id: u32)
    ensures
        index_of_id(ps, id) is None <==> (forall|i: int| 0 <= i < ps.len() ==> ps[i].id != id),
        index_of_id(ps, id) matches Some(i) ==> 0 <= i < ps.len() && ps[i].id == id,
    decreases ps.len(),
{
    if ps.len() > 0 {
        lemma_index_of_id(ps.drop_last(), id);
        if ps.last().id != id {
            assert forall|i: int| 0 <= i < ps.len() - 1 implies ps[i] == ps.drop_last()[i] by {}
        }
    }
}

pub proof fn lemma_index_of_label(ps: Seq<profiles::Model>, label: Seq<char>)
    ensures
        index_of_label(ps, label) is None <==> (forall|i: int| 0 <= i < ps.len() ==> !has_label(ps[i], label)),
        index_of_label(ps, label) matches Some(i) ==> 0 <= i < ps.len() && has_label(ps[i], label),
    decreases ps.len(),
{
    if ps.len() > 0 {
        lemma_index_of_label(ps.drop_last(), label);
        if !has_label(ps.last(), label) {
            assert forall|i: int| 0 <= i < ps.len() - 1 implies ps[i] == ps.drop_last()[i] by {}
        }
    }
}

/// In well-formed rows a label names at most one profile: the one that
/// `index_of_label` finds.
pub proof fn lemma_label_names_one(ps: Seq<profiles::Model>, rs: Seq<routes::Model>, label: Seq<char>)
    requires
        rows_wf(ps, rs),
    ensures
        forall|j: int| 0 <= j < ps.len() && #[trigger] has_label(ps[j], label) ==> index_of_label(ps, label) == Some(j),
{
    lemma_index_of_label(ps, label);
    assert forall|j: int| 0 <= j < ps.len() && #[trigger] has_label(ps[j], label) implies index_of_label(ps, label)
        == Some(j) by {
        let i = index_of_label(ps, label).unwrap();
        if i != j {
            assert(ps[i].label is Some && ps[j].label is Some);
            if i < j {
                assert(ps[i].label.unwrap()@ != ps[j].label.unwrap()@);
            } else {
                assert(ps[j].label.unwrap()@ != ps[i].label.unwrap()@);
            }
        }
    }
}

/// The stored profiles, route edges and key-path records.
pub struct ProfileStore {
    profiles: Vec<profiles::Model>,
    routes: Vec<routes::Model>,
    local_auth: Vec<local_auth::Model>,
}

impl ProfileStore {
    pub closed spec fn profile_rows(&self) -> Seq<profiles::Model> {
        self.profiles@
    }

    pub closed spec fn route_rows(&self) -> Seq<routes::Model> {
        self.routes@
    }

    pub closed spec fn key_rows(&self) -> Seq<local_auth::Model> {
        self.local_auth@
    }

    pub open spec fn wf(&self) -> bool {
        rows_wf(self.profile_rows(), self.route_rows())
    }

    /// An empty store.
    pub fn new() -> (r: ProfileStore)
        ensures
            r.wf(),
            r.profile_rows() == Seq::<profiles::Model>::empty(),
            r.route_rows() == Seq::<routes::Model>::empty(),
            r.key_rows() == Seq::<local_auth::Model>::empty(),
    {
        ProfileStore { profiles: Vec::new(), routes: Vec::new(), local_auth: Vec::new() }
    }

    pub fn profiles(&self) -> (r: &Vec<profiles::Model>)
        ensures
            r@ == self.profile_rows(),
    {
        &self.profiles
    }

    pub fn routes(&self) -> (r: &Vec<routes::Model>)
        ensures
            r@ == self.route_rows(),
    {
        &self.routes
    }

    pub fn local_auth(&self) -> (r: &Vec<local_auth::Model>)
        ensures
            r@ == self.key_rows(),
    {
        &self.local_auth
    }

    /// A store holding the given rows, provided they are well formed.
    pub fn from_rows(
        profiles: Vec<profiles::Model>,
        routes: Vec<routes::Model>,
        local_auth: Vec<local_auth::Model>,
    ) -> (r: Result<ProfileStore, AppError>)
        ensures
            r matches Ok(s) ==> s.wf() && s.profile_rows() == profiles@ && s.route_rows() == routes@
                && s.key_rows() == local_auth@,
            r is Err ==> !rows_wf(profiles@, routes@),
    {
        let mut j: usize = 0;
        while j < profiles.len()
            invariant
                j <= profiles.len(),
                forall|a: int, b: int| 0 <= a < b < j ==> profiles@[a].id != profiles@[b].id,
                forall|a: int, b: int|
                    0 <= a < b < j && (#[trigger] profiles@[a].label) is Some
                        && (#[trigger] profiles@[b].label) is Some
                        ==> profiles@[a].label.unwrap()@ != profiles@[b].label.unwrap()@,
            decreases profiles.len() - j,
        {
            let mut i: usize = 0;
            while i < j
                invariant
                    i <= j < profiles.len(),
                    forall|a: int| 0 <= a < i ==> profiles@[a].id != profiles@[j as int].id,
                    forall|a: int|
                        0 <= a < i && (#[trigger] profiles@[a].label) is Some
                            && profiles@[j as int].label is Some
                            ==> profiles@[a].label.unwrap()@ != profiles@[j as int].label.unwrap()@,
                decreases j - i,
            {
                if profiles[i].id == profiles[j].id {
                    return Err(AppError::InternalError(String::from_str("duplicate profile id")));
                }
                let clash = match (&profiles[i].label, &profiles[j].label) {
                    (Some(a), Some(b)) => same_text(a.as_str(), b.as_str()),
                    _ => false,
                };
                if clash {
                    return Err(AppError::InternalError(String::from_str("duplicate profile label")));
                }
                i = i + 1;
            }
            j = j + 1;
        }
        let mut j: usize = 0;
        while j < routes.len()
            invariant
                j <= routes.len(),
                forall|o: u32, k: int|
                    0 <= k < owned_routes(routes@.take(j as int), o).len()
                        ==> (#[trigger] owned_routes(routes@.take(j as int), o)[k]).seq == k,
            decreases routes.len() - j,
        {
            let owner = routes[j].profile_id;
            let mut count: usize = 0;
            let mut i: usize = 0;
            while i < j
                invariant
                    i <= j < routes.len(),
                    count == owned_routes(routes@.take(i as int), owner).len(),
                    count <= i,
                decreases j - i,
            {
                assert(routes@.take(i + 1).drop_last() =~= routes@.take(i as int));
                if routes[i].profile_id == owner {
                    count = count + 1;
                }
                i = i + 1;
            }
            if routes[j].seq as usize != count {
                proof {
                    let t = routes@.take(j + 1);
                    assert(t.drop_last() =~= routes@.take(j as int));
                    assert(t =~= routes@ .take(j + 1));
                    lemma_owned_routes_append(t, routes@.skip(j + 1), owner);
                    assert(t + routes@.skip(j + 1) =~= routes@);
                    let k = count as int;
                    assert(owned_routes(routes@, owner)[k] == routes@[j as int]);
                }
                return Err(AppError::InternalError(String::from_str("route edges out of chain order")));
            }
            proof {
                let t = routes@.take(j + 1);
                assert(t.drop_last() =~= routes@.take(j as int));
                assert forall|o: u32, k: int|
                    0 <= k < owned_routes(t, o).len() implies (#[trigger] owned_routes(t, o)[k]).seq == k by {
                    if o == owner && k == count {
                    } else {
                        assert(owned_routes(t, o)[k] == owned_routes(routes@.take(j as int), o)[k]);
                    }
                }
            }
            j = j + 1;
        }
        assert(routes@.take(j as int) =~= routes@);
        Ok(ProfileStore { profiles, routes, local_auth })
    }

    /// The rows, to be written back.
    pub fn into_rows(self) -> (r: (Vec<profiles::Model>, Vec<routes::Model>, Vec<local_auth::Model>))
        ensures
            r.0@ == self.profile_rows(),
            r.1@ == self.route_rows(),
            r.2@ == self.key_rows(),
    {
        (self.profiles, self.routes, self.local_auth)
    }

    /// The id that the next new profile gets: one more than the largest so
    /// far, or `None` when the ids are used up.
    pub fn next_profile_id(&self) -> (r: Option<u32>)
        ensures
            max_id(self.profile_rows()) < u32::MAX ==> r == Some((max_id(self.profile_rows()) + 1) as u32),
            max_id(self.profile_rows()) >= u32::MAX ==> r is None,
    {
        let mut top: u32 = 0;
        let mut i: usize = 0;
        while i < self.profiles.len()
            invariant
                i <= self.profiles.len(),
                top == max_id(self.profiles@.take(i as int)),
            decreases self.profiles.len() - i,
        {
            assert(self.profiles@.take(i + 1).drop_last() =~= self.profiles@.take(i as int));
            if self.profiles[i].id > top {
                top = self.profiles[i].id;
            }
            i = i + 1;
        }
        assert(self.profiles@.take(i as int) =~= self.profiles@);
        if top < u32::MAX {
            Some(top + 1)
        } else {
            None
        }
    }

    /// Adds `p` as the last profile.
    pub(crate) fn insert_profile(&mut self, p: profiles::Model)
        requires
            old(self).wf(),
            index_of_id(old(self).profile_rows(), p.id) is None,
            p.label matches Some(l) ==> index_of_label(old(self).profile_rows(), l@) is None,
        ensures
            final(self).wf(),
            final(self).profile_rows() == old(self).profile_rows().push(p),
            final(self).route_rows() == old(self).route_rows(),
            final(self).key_rows() == old(self).key_rows(),
    {
        proof {
            lemma_index_of_id(self.profiles@, p.id);
            if p.label is Some {
                lemma_index_of_label(self.profiles@, p.label.unwrap()@);
            }
        }
        self.profiles.push(p);
        proof {
            let ps = self.profiles@;
            assert forall|i: int, j: int|
                0 <= i < j < ps.len() && (#[trigger] ps[i].label) is Some && (#[trigger] ps[j].label) is Some
                    implies ps[i].label.unwrap()@ != ps[j].label.unwrap()@ by {
                if j == ps.len() - 1 {
                    assert(!has_label(old(self).profiles@[i], p.label.unwrap()@));
                }
            }
        }
    }

    /// Drops the last profile.
    pub(crate) fn pop_profile(&mut self)
        requires
            old(self).wf(),
            old(self).profile_rows().len() > 0,
        ensures
            final(self).wf(),
            final(self).profile_rows() == old(self).profile_rows().drop_last(),
            final(self).route_rows() == old(self).route_rows(),
            final(self).key_rows() == old(self).key_rows(),
    {
        self.profiles.pop();
        proof {
            let ps = self.profiles@;
            assert forall|i: int, j: int|
                0 <= i < j < ps.len() && (#[trigger] ps[i].label) is Some && (#[trigger] ps[j].label) is Some
                    implies ps[i].label.unwrap()@ != ps[j].label.unwrap()@ by {
                assert(ps[i] == old(self).profiles@[i] && ps[j] == old(self).profiles@[j]);
            }
        }
    }

    /// Replaces the profile at `i` by `p`, which keeps its id and label.
    pub(crate) fn update_profile(&mut self, i: usize, p: profiles::Model)
        requires
            old(self).wf(),
            i < old(self).profile_rows().len(),
            p.id == old(self).profile_rows()[i as int].id,
            p.label == old(self).profile_rows()[i as int].label,
        ensures
            final(self).wf(),
            final(self).profile_rows() == old(self).profile_rows().update(i as int, p),
            final(self).route_rows() == old(self).route_rows(),
            final(self).key_rows() == old(self).key_rows(),
    {
        self.profiles.set(i, p);
        proof {
            let ps = self.profiles@;
            let os = old(self).profiles@;
            assert forall|a: int| 0 <= a < ps.len() implies ps[a].id == os[a].id && ps[a].label == os[a].label by {}
            assert forall|a: int, b: int|
                0 <= a < b < ps.len() && (#[trigger] ps[a].label) is Some && (#[trigger] ps[b].label) is Some
                    implies ps[a].label.unwrap()@ != ps[b].label.unwrap()@ by {
                assert(os[a].label is Some && os[b].label is Some);
            }
        }
    }

    /// Removes the profile at `i`.
    pub(crate) fn remove_profile(&mut self, i: usize)
        requires
            old(self).wf(),
            i < old(self).profile_rows().len(),
        ensures
            final(self).wf(),
            final(self).profile_rows() == old(self).profile_rows().remove(i as int),
            final(self).route_rows() == old(self).route_rows(),
            final(self).key_rows() == old(self).key_rows(),
    {
        self.profiles.remove(i);
        proof {
            let ps = self.profiles@;
            let os = old(self).profiles@;
            assert forall|a: int| 0 <= a < ps.len() implies ps[a] == os[if a < i { a } else { a + 1 }] by {}
            assert forall|a: int, b: int|
                0 <= a < b < ps.len() && (#[trigger] ps[a].label) is Some && (#[trigger] ps[b].label) is Some
                    implies ps[a].label.unwrap()@ != ps[b].label.unwrap()@ by {
                let oa = if a < i { a } else { a + 1 };
                let ob = if b < i { b } else { b + 1 };
                assert(os[oa].label is Some && os[ob].label is Some);
            }
        }
    }

    /// Replaces `owner`'s whole jump chain by one through `ids`, in order.
    pub(crate) fn replace_chain(&mut self, owner: u32, ids: &Vec<u32>)
        requires
            old(self).wf(),
            ids.len() <= u32::MAX,
        ensures
            final(self).wf(),
            final(self).profile_rows() == old(self).profile_rows(),
            final(self).route_rows() == without_owner(old(self).route_rows(), owner) + chain_rows(owner, ids@),
            final(self).key_rows() == old(self).key_rows(),
    {
        let mut kept: Vec<routes::Model> = Vec::new();
        let mut i: usize = 0;
        while i < self.routes.len()
            invariant
                i <= self.routes.len(),
                kept@ == without_owner(self.routes@.take(i as int), owner),
            decreases self.routes.len() - i,
        {
            assert(self.routes@.take(i + 1).drop_last() =~= self.routes@.take(i as int));
            if self.routes[i].profile_id != owner {
                kept.push(self.routes[i]);
            }
            i = i + 1;
        }
        assert(self.routes@.take(i as int) =~= self.routes@);
        let ghost base = kept@;
        let mut k: usize = 0;
        while k < ids.len()
            invariant
                k <= ids.len() <= u32::MAX,
                kept@ == base + chain_rows(owner, ids@.take(k as int)),
            decreases ids.len() - k,
        {
            kept.push(routes::Model { profile_id: owner, seq: k as u32, via_profile_id: ids[k] });
            assert(chain_rows(owner, ids@.take(k + 1)) =~= chain_rows(owner, ids@.take(k as int)).push(
                routes::Model { profile_id: owner, seq: k as u32, via_profile_id: ids@[k as int] },
            ));
            k = k + 1;
        }
        assert(ids@.take(k as int) =~= ids@);
        self.routes = kept;
        proof {
            let rs = self.routes@;
            assert forall|o: u32, j: int|
                0 <= j < owned_routes(rs, o).len() implies (#[trigger] owned_routes(rs, o)[j]).seq == j by {
                lemma_owned_routes_append(without_owner(old(self).routes@, owner), chain_rows(owner, ids@), o);
                lemma_owned_without(old(self).routes@, owner, o);
                lemma_owned_chain_rows(owner, ids@, o);
                if o != owner {
                    assert(owned_routes(rs, o) =~= owned_routes(old(self).routes@, o));
                } else {
                    assert(owned_routes(rs, o) =~= chain_rows(owner, ids@));
                }
            }
        }
    }

    /// The position of the profile with id `id`.
    pub fn find_by_id(&self, id: u32) -> (r: Option<usize>)
        ensures
            r matches Some(i) ==> index_of_id(self.profile_rows(), id) == Some(i as int),
            r is None ==> index_of_id(self.profile_rows(), id) is None,
    {
        let mut found: Option<usize> = None;
        let mut i: usize = 0;
        while i < self.profiles.len()
            invariant
                i <= self.profiles.len(),
                found matches Some(k) ==> index_of_id(self.profiles@.take(i as int), id) == Some(k as int),
                found is None ==> index_of_id(self.profiles@.take(i as int), id) is None,
            decreases self.profiles.len() - i,
        {
            assert(self.profiles@.take(i + 1).drop_last() =~= self.profiles@.take(i as int));
            if self.profiles[i].id == id {
                found = Some(i);
            }
            i = i + 1;
        }
        assert(self.profiles@.take(i as int) =~= self.profiles@);
        found
    }

    /// The position of the profile labelled `label`.
    pub fn find_by_label(&self, label: &str) -> (r: Option<usize>)
        ensures
            r matches Some(i) ==> index_of_label(self.profile_rows(), label@) == Some(i as int),
            r is None ==> index_of_label(self.profile_rows(), label@) is None,
    {
        let mut found: Option<usize> = None;
        let mut i: usize = 0;
        while i < self.profiles.len()
            invariant
                i <= self.profiles.len(),
                found matches Some(k) ==> index_of_label(self.profiles@.take(i as int), label@) == Some(k as int),
                found is None ==> index_of_label(self.profiles@.take(i as int), label@) is None,
            decreases self.profiles.len() - i,
        {
            assert(self.profiles@.take(i + 1).drop_last() =~= self.profiles@.take(i as int));
            let hit = match &self.profiles[i].label {
                Some(l) => same_text(l.as_str(), label),
                None => false,
            };
            if hit {
                found = Some(i);
            }
            i = i + 1;
        }
        assert(self.profiles@.take(i as int) =~= self.profiles@);
        found
    }

    /// The via-ids of `owner`'s jump chain, first bastion first.
    pub fn chain_ids(&self, owner: u32) -> (r: Vec<u32>)
        ensures
            r@ == chain_of(self.route_rows(), owner),
    {
        let mut out: Vec<u32> = Vec::new();
        let mut i: usize = 0;
        while i < self.routes.len()
            invariant
                i <= self.routes.len(),
                out@ == chain_of(self.routes@.take(i as int), owner),
            decreases self.routes.len() - i,
        {
            assert(self.routes@.take(i + 1).drop_last() =~= self.routes@.take(i as int));
            if self.routes[i].profile_id == owner {
                out.push(self.routes[i].via_profile_id);
            }
            proof {
                let t = self.routes@.take(i + 1);
                assert(t.last() == self.routes@[i as int]);
                assert(out@ =~= chain_of(t, owner));
            }
            i = i + 1;
        }
        assert(self.routes@.take(i as int) =~= self.routes@);
        out
    }

    /// The key path recorded for profile `id`, if any.
    pub fn key_path(&self, id: u32) -> (r: Option<String>)
        ensures
            r == key_path_of(self.key_rows(), id),
    {
        let mut found: Option<String> = None;
        let mut i: usize = 0;
        while i < self.local_auth.len()
            invariant
                i <= self.local_auth.len(),
                found == key_path_of(self.local_auth@.take(i as int), id),
            decreases self.local_auth.len() - i,
        {
            assert(self.local_auth@.take(i + 1).drop_last() =~= self.local_auth@.take(i as int));
            if self.local_auth[i].profile_id == id {
                found = match &self.local_auth[i].key_path_local {
                    Some(k) => Some(k.clone()),
                    None => None,
                };
            }
            i = i + 1;
        }
        assert(self.local_auth@.take(i as int) =~= self.local_auth@);
        found
    }
}

} // verus!
