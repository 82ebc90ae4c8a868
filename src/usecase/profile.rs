//! Creating, changing, showing and removing profiles, with their jump
//! chains. Every operation either applies in full or leaves the store as
//! it was.

use vstd::prelude::*;
use crate::entity::profiles::{self, mode_of_name, mode_text, AuthMode, Model};
use crate::error::{AppError, AppResult};
use crate::store::{
    chain_of, chain_rows, has_label, index_of_id, index_of_label, max_id, without_owner,
    ProfileStore,
};
use crate::text::{ascii_lower, join_strings, join_with, views};
use crate::usecase::{is_view_of, port_or_default, EditProfileInput, ProfileView};

verus! {

/// The store's rows are those of `b`.
pub open spec fn same_rows(a: ProfileStore, b: ProfileStore) -> bool {
    &&& a.profile_rows() == b.profile_rows()
    &&& a.route_rows() == b.route_rows()
    &&& a.key_rows() == b.key_rows()
}

/// The jump labels of `jumps` that name no profile of `ps`, in order.
pub open spec fn missing_labels(ps: Seq<Model>, jumps: Seq<String>) -> Seq<Seq<char>>
    decreases jumps.len(),
{
    if jumps.len() == 0 {
        Seq::empty()
    } else {
        let rest = missing_labels(ps, jumps.drop_last());
        if index_of_label(ps, jumps.last()@) is None {
            rest.push(jumps.last()@)
        } else {
            rest
        }
    }
}

/// The ids of the profiles of `ps` that `jumps` name, in order.
pub open spec fn label_ids(ps: Seq<Model>, jumps: Seq<String>) -> Seq<u32> {
    jumps.map_values(|j: String| ps[index_of_label(ps, j@).unwrap()].id)
}

/// The text of an optional argument, empty when it is missing.
pub open spec fn opt_text(o: Option<String>) -> Seq<char> {
    match o {
        Some(s) => s@,
        None => Seq::empty(),
    }
}

/// The mode that an optional mode argument selects.
pub open spec fn mode_choice(o: Option<String>) -> Option<AuthMode> {
    mode_of_name(ascii_lower(opt_text(o)))
}

/// The text of `o`, or `default` when it is missing.
pub open spec fn text_or(o: Option<String>, default: Seq<char>) -> Seq<char> {
    match o {
        Some(s) => s@,
        None => default,
    }
}

/// `p` is the profile that `input` creates under id `id`.
pub open spec fn is_created_from(p: Model, input: EditProfileInput, id: u32) -> bool {
    &&& p.id == id
    &&& p.label matches Some(l) && l == input.label
    &&& p.hostname@ == text_or(input.host, "127.0.0.1"@)
    &&& p.username@ == text_or(input.user, "root"@)
    &&& p.port == Some(port_or_default(input.port))
    &&& mode_choice(input.mode) == Some(p.auth_mode)
    &&& p.tags == input.tags
    &&& p.note == input.notes
}

/// `p` is `old` with the fields that `input` gives replaced.
pub open spec fn is_updated_from(p: Model, old: Model, input: EditProfileInput) -> bool {
    &&& p.id == old.id
    &&& p.label == old.label
    &&& p.hostname == (match input.host {
        Some(h) => h,
        None => old.hostname,
    })
    &&& p.username == (match input.user {
        Some(u) => u,
        None => old.username,
    })
    &&& p.port == (match input.port {
        Some(n) => Some(n),
        None => old.port,
    })
    &&& p.auth_mode == (match input.mode {
        Some(_) => mode_choice(input.mode).unwrap(),
        None => old.auth_mode,
    })
    &&& p.tags == (match input.tags {
        Some(t) => Some(t),
        None => old.tags,
    })
    &&& p.note == (match input.notes {
        Some(n) => Some(n),
        None => old.note,
    })
}

/// The profile shown for `model`.
pub fn to_view(model: &Model) -> (r: ProfileView)
    ensures
        is_view_of(r, *model),
{
    let label = match &model.label {
        Some(l) => l.clone(),
        None => String::new(),
    };
    let port = match model.port {
        Some(n) => n,
        None => 22,
    };
    ProfileView {
        id: model.id,
        label,
        host: model.hostname.clone(),
        user: model.username.clone(),
        port,
        mode: String::from_str(model.auth_mode.as_str()),
        tags: model.tags.clone(),
        note: model.note.clone(),
    }
}

/// The ids of the profiles that `jumps` name, or the error naming every
/// label that names none, joined by commas.
pub fn resolve_jump_ids(store: &ProfileStore, jumps: &Vec<String>) -> (r: AppResult<Vec<u32>>)
    ensures
        missing_labels(store.profile_rows(), jumps@).len() == 0 ==> (r matches Ok(ids) && ids@
            == label_ids(store.profile_rows(), jumps@)),
        missing_labels(store.profile_rows(), jumps@).len() > 0 ==> (r matches Err(
            AppError::ProfileRouteTargetNotFound(t),
        ) && t@ == join_with(missing_labels(store.profile_rows(), jumps@), ","@)),
{
    let ghost ps = store.profile_rows();
    let mut ids: Vec<u32> = Vec::new();
    let mut missing: Vec<String> = Vec::new();
    let mut i: usize = 0;
    while i < jumps.len()
        invariant
            ps == store.profile_rows(),
            i <= jumps.len(),
            views(missing@) == missing_labels(ps, jumps@.take(i as int)),
            missing@.len() == 0 ==> ids@ == label_ids(ps, jumps@.take(i as int)),
        decreases jumps.len() - i,
    {
        assert(jumps@.take(i + 1).drop_last() =~= jumps@.take(i as int));
        match store.find_by_label(jumps[i].as_str()) {
            Some(j) => {
                proof { crate::store::lemma_index_of_label(ps, jumps@[i as int]@); }
                ids.push(store.profiles()[j].id);
            },
            None => {
                missing.push(jumps[i].clone());
            },
        }
        assert(views(missing@) =~= missing_labels(ps, jumps@.take(i + 1)));
        proof {
            if missing@.len() == 0 {
                assert(ids@ =~= label_ids(ps, jumps@.take(i + 1)));
            }
        }
        i = i + 1;
    }
    assert(jumps@.take(i as int) =~= jumps@);
    if missing.len() > 0 {
        Err(AppError::ProfileRouteTargetNotFound(join_strings(&missing, ",")))
    } else {
        Ok(ids)
    }
}

/// Replaces the jump chain of `profile_id` by the profiles that `jumps`
/// name, in order. An empty list leaves the chain as it is; a label that
/// names no profile leaves the store as it is.
pub fn replace_jumps_for_profile(store: &mut ProfileStore, profile_id: u32, jumps: &Vec<String>) -> (r:
    AppResult<()>)
    requires
        old(store).wf(),
        jumps.len() <= u32::MAX,
    ensures
        final(store).wf(),
        final(store).profile_rows() == old(store).profile_rows(),
        final(store).key_rows() == old(store).key_rows(),
        jumps.len() == 0 ==> r is Ok && final(store).route_rows() == old(store).route_rows(),
        jumps.len() > 0 && missing_labels(old(store).profile_rows(), jumps@).len() == 0 ==> r is Ok
            && final(store).route_rows() == without_owner(old(store).route_rows(), profile_id)
            + chain_rows(profile_id, label_ids(old(store).profile_rows(), jumps@)),
        jumps.len() > 0 && missing_labels(old(store).profile_rows(), jumps@).len() > 0 ==> (r matches Err(
            AppError::ProfileRouteTargetNotFound(t),
        ) && t@ == join_with(missing_labels(old(store).profile_rows(), jumps@), ","@))
            && final(store).route_rows() == old(store).route_rows(),
{
    if jumps.len() == 0 {
        return Ok(());
    }
    let ids = resolve_jump_ids(store, jumps)?;
    store.replace_chain(profile_id, &ids);
    Ok(())
}

/// The jump labels of `jumps` that name no profile of `ps` and differ from
/// `extra`, in order.
pub open spec fn missing_labels_besides(ps: Seq<Model>, extra: Seq<char>, jumps: Seq<String>) -> Seq<
    Seq<char>,
>
    decreases jumps.len(),
{
    if jumps.len() == 0 {
        Seq::empty()
    } else {
        let rest = missing_labels_besides(ps, extra, jumps.drop_last());
        if index_of_label(ps, jumps.last()@) is None && jumps.last()@ != extra {
            rest.push(jumps.last()@)
        } else {
            rest
        }
    }
}

proof fn lemma_missing_after_push(ps: Seq<Model>, p: Model, jumps: Seq<String>)
    requires
        p.label is Some,
    ensures
        missing_labels(ps.push(p), jumps) == missing_labels_besides(ps, p.label.unwrap()@, jumps),
    decreases jumps.len(),
{
    if jumps.len() > 0 {
        lemma_missing_after_push(ps, p, jumps.drop_last());
        assert(ps.push(p).drop_last() =~= ps);
    }
}

/// Creates the profile that `input` describes, with the next free id:
/// host `127.0.0.1`, user `root` and port 22 unless given, and the jump
/// chain that `input.jumps` names. A taken label, an unknown mode, or a
/// jump label that names no profile fails without any write.
pub fn add_profile(store: &mut ProfileStore, input: EditProfileInput) -> (r: AppResult<ProfileView>)
    requires
        old(store).wf(),
        input.jumps.len() <= u32::MAX,
    ensures
        final(store).wf(),
        ({
            let ps = old(store).profile_rows();
            let free = index_of_label(ps, input.label@) is None;
            let mode_ok = mode_choice(input.mode) is Some;
            let id_ok = max_id(ps) < u32::MAX;
            let missing = missing_labels_besides(ps, input.label@, input.jumps@);
            let jumps_ok = input.jumps.len() == 0 || missing.len() == 0;
            &&& !free ==> (r matches Err(AppError::ProfileAlreadyExists(t)) && t@ == input.label@)
                && same_rows(*final(store), *old(store))
            &&& free && !mode_ok ==> (r matches Err(AppError::InvalidAuthMode(t)) && t@ == ascii_lower(
                opt_text(input.mode),
            )) && same_rows(*final(store), *old(store))
            &&& free && mode_ok && !id_ok ==> (r matches Err(AppError::InternalError(_)))
                && same_rows(*final(store), *old(store))
            &&& free && mode_ok && id_ok && !jumps_ok ==> (r matches Err(
                AppError::ProfileRouteTargetNotFound(t),
            ) && t@ == join_with(missing, ","@)) && same_rows(*final(store), *old(store))
            &&& free && mode_ok && id_ok && jumps_ok ==> (r matches Ok(v) && {
                let fps = final(store).profile_rows();
                let id = (max_id(ps) + 1) as u32;
                &&& fps.len() == ps.len() + 1
                &&& fps.drop_last() == ps
                &&& is_created_from(fps.last(), input, id)
                &&& is_view_of(v, fps.last())
                &&& final(store).key_rows() == old(store).key_rows()
                &&& input.jumps.len() == 0 ==> final(store).route_rows() == old(store).route_rows()
                &&& input.jumps.len() > 0 ==> final(store).route_rows() == without_owner(
                    old(store).route_rows(),
                    id,
                ) + chain_rows(id, label_ids(fps, input.jumps@))
            })
        }),
{
    let ghost ps = store.profile_rows();
    match store.find_by_label(input.label.as_str()) {
        Some(_) => {
            return Err(AppError::ProfileAlreadyExists(input.label));
        },
        None => {},
    }
    let mode_arg: Option<&str> = match &input.mode {
        Some(m) => Some(m.as_str()),
        None => None,
    };
    assert(mode_text(mode_arg) == opt_text(input.mode));
    let auth_mode = AuthMode::from_str(mode_arg)?;
    let id = match store.next_profile_id() {
        Some(n) => n,
        None => {
            return Err(AppError::InternalError(String::from_str("no profile id is left")));
        },
    };
    let hostname = match input.host {
        Some(h) => h,
        None => String::from_str("127.0.0.1"),
    };
    let username = match input.user {
        Some(u) => u,
        None => String::from_str("root"),
    };
    let port: u16 = match input.port {
        Some(n) => n,
        None => 22,
    };
    let model = Model {
        id,
        label: Some(input.label.clone()),
        hostname,
        username,
        port: Some(port),
        auth_mode,
        tags: input.tags,
        note: input.notes,
    };
    proof {
        crate::store::lemma_max_id(ps);
        crate::store::lemma_index_of_id(ps, id);
        lemma_missing_after_push(ps, model, input.jumps@);
    }
    let view = to_view(&model);
    store.insert_profile(model);
    if input.jumps.len() > 0 {
        match replace_jumps_for_profile(store, id, &input.jumps) {
            Ok(()) => {},
            Err(e) => {
                store.pop_profile();
                assert(store.profile_rows() =~= ps);
                return Err(e);
            },
        }
    }
    Ok(view)
}

/// Changes the fields of the profile labelled `input.label` that `input`
/// gives and, when `input.jumps` is not empty, replaces its jump chain. A
/// missing profile, an unknown mode, or a jump label that names no profile
/// fails without any write.
pub fn set_profile(store: &mut ProfileStore, input: EditProfileInput) -> (r: AppResult<ProfileView>)
    requires
        old(store).wf(),
        input.jumps.len() <= u32::MAX,
    ensures
        final(store).wf(),
        ({
            let ps = old(store).profile_rows();
            let missing = missing_labels(ps, input.jumps@);
            let mode_ok = input.mode is None || mode_choice(input.mode) is Some;
            let jumps_ok = input.jumps.len() == 0 || missing.len() == 0;
            match index_of_label(ps, input.label@) {
                None => (r matches Err(AppError::ProfileNotFound(t)) && t@ == input.label@)
                    && same_rows(*final(store), *old(store)),
                Some(i) => {
                    &&& !mode_ok ==> (r matches Err(AppError::InvalidAuthMode(t)) && t@ == ascii_lower(
                        opt_text(input.mode),
                    )) && same_rows(*final(store), *old(store))
                    &&& mode_ok && !jumps_ok ==> (r matches Err(
                        AppError::ProfileRouteTargetNotFound(t),
                    ) && t@ == join_with(missing, ","@)) && same_rows(*final(store), *old(store))
                    &&& mode_ok && jumps_ok ==> (r matches Ok(v) && {
                        let fps = final(store).profile_rows();
                        &&& fps.len() == ps.len()
                        &&& forall|k: int| 0 <= k < ps.len() && k != i ==> fps[k] == ps[k]
                        &&& is_updated_from(fps[i], ps[i], input)
                        &&& is_view_of(v, fps[i])
                        &&& final(store).key_rows() == old(store).key_rows()
                        &&& input.jumps.len() == 0 ==> final(store).route_rows()
                            == old(store).route_rows()
                        &&& input.jumps.len() > 0 ==> final(store).route_rows() == without_owner(
                            old(store).route_rows(),
                            ps[i].id,
                        ) + chain_rows(ps[i].id, label_ids(ps, input.jumps@))
                    })
                },
            }
        }),
{
    let ghost ps = store.profile_rows();
    let i = match store.find_by_label(input.label.as_str()) {
        Some(i) => i,
        None => {
            return Err(AppError::ProfileNotFound(input.label));
        },
    };
    proof { crate::store::lemma_index_of_label(ps, input.label@); }
    let auth_mode = match &input.mode {
        Some(m) => {
            let arg: Option<&str> = Some(m.as_str());
            assert(mode_text(arg) == opt_text(input.mode));
            AuthMode::from_str(arg)?
        },
        None => store.profiles()[i].auth_mode,
    };
    let ids: Vec<u32> = if input.jumps.len() > 0 {
        resolve_jump_ids(store, &input.jumps)?
    } else {
        Vec::new()
    };
    let current = &store.profiles()[i];
    let id = current.id;
    let label = match &current.label {
        Some(l) => Some(l.clone()),
        None => None,
    };
    let hostname = match input.host {
        Some(h) => h,
        None => current.hostname.clone(),
    };
    let username = match input.user {
        Some(u) => u,
        None => current.username.clone(),
    };
    let port = match input.port {
        Some(n) => Some(n),
        None => current.port,
    };
    let tags = match input.tags {
        Some(t) => Some(t),
        None => current.tags.clone(),
    };
    let note = match input.notes {
        Some(n) => Some(n),
        None => current.note.clone(),
    };
    let model = Model { id, label, hostname, username, port, auth_mode, tags, note };
    let view = to_view(&model);
    store.update_profile(i, model);
    if input.jumps.len() > 0 {
        store.replace_chain(id, &ids);
    }
    Ok(view)
}

/// Removes the profile labelled `label` together with the edges of its
/// own jump chain.
pub fn delete_profile_by_label(store: &mut ProfileStore, label: String) -> (r: AppResult<()>)
    requires
        old(store).wf(),
    ensures
        final(store).wf(),
        ({
            let ps = old(store).profile_rows();
            match index_of_label(ps, label@) {
                None => (r matches Err(AppError::ProfileNotFound(t)) && t@ == label@)
                    && same_rows(*final(store), *old(store)),
                Some(i) => r is Ok && final(store).profile_rows() == ps.remove(i)
                    && final(store).route_rows() == without_owner(old(store).route_rows(), ps[i].id)
                    && final(store).key_rows() == old(store).key_rows(),
            }
        }),
{
    let ghost ps = store.profile_rows();
    let i = match store.find_by_label(label.as_str()) {
        Some(i) => i,
        None => {
            return Err(AppError::ProfileNotFound(label));
        },
    };
    proof { crate::store::lemma_index_of_label(ps, label@); }
    let id = store.profiles()[i].id;
    let none: Vec<u32> = Vec::new();
    store.replace_chain(id, &none);
    assert(chain_rows(id, none@) =~= Seq::<crate::entity::routes::Model>::empty());
    assert(store.route_rows() =~= without_owner(old(store).route_rows(), id));
    store.remove_profile(i);
    Ok(())
}

/// The profile labelled `label`.
pub fn get_profile_by_label(store: &ProfileStore, label: String) -> (r: AppResult<ProfileView>)
    ensures
        ({
            let ps = store.profile_rows();
            match index_of_label(ps, label@) {
                None => r matches Err(AppError::ProfileNotFound(t)) && t@ == label@,
                Some(i) => r matches Ok(v) && is_view_of(v, ps[i]),
            }
        }),
{
    let ghost ps = store.profile_rows();
    match store.find_by_label(label.as_str()) {
        Some(i) => {
            proof { crate::store::lemma_index_of_label(ps, label@); }
            Ok(to_view(&store.profiles()[i]))
        },
        None => Err(AppError::ProfileNotFound(label)),
    }
}

/// The profiles of `chain` that exist in `ps`, in chain order.
pub open spec fn present_profiles(ps: Seq<Model>, chain: Seq<u32>) -> Seq<Model>
    decreases chain.len(),
{
    if chain.len() == 0 {
        Seq::empty()
    } else {
        let rest = present_profiles(ps, chain.drop_last());
        match index_of_id(ps, chain.last()) {
            Some(j) => rest.push(ps[j]),
            None => rest,
        }
    }
}

/// The profile labelled `label`, and the profiles of its jump chain in
/// order (those that no longer exist are left out).
pub fn get_profile_detail_by_label(store: &ProfileStore, label: String) -> (r: AppResult<
    (ProfileView, Vec<ProfileView>),
>)
    ensures
        ({
            let ps = store.profile_rows();
            match index_of_label(ps, label@) {
                None => r matches Err(AppError::ProfileNotFound(t)) && t@ == label@,
                Some(i) => r matches Ok(d) && is_view_of(d.0, ps[i]) && {
                    let jumps = present_profiles(ps, chain_of(store.route_rows(), ps[i].id));
                    &&& d.1.len() == jumps.len()
                    &&& forall|k: int| 0 <= k < jumps.len() ==> is_view_of(#[trigger] d.1@[k], jumps[k])
                },
            }
        }),
{
    let ghost ps = store.profile_rows();
    let i = match store.find_by_label(label.as_str()) {
        Some(i) => i,
        None => {
            return Err(AppError::ProfileNotFound(label));
        },
    };
    proof { crate::store::lemma_index_of_label(ps, label@); }
    let profiles = store.profiles();
    let base = to_view(&profiles[i]);
    let via_ids = store.chain_ids(profiles[i].id);
    let mut jumps: Vec<ProfileView> = Vec::new();
    let mut k: usize = 0;
    while k < via_ids.len()
        invariant
            ps == store.profile_rows(),
            profiles@ == ps,
            k <= via_ids.len(),
            jumps.len() == present_profiles(ps, via_ids@.take(k as int)).len(),
            forall|m: int|
                0 <= m < jumps.len() ==> is_view_of(
                    #[trigger] jumps@[m],
                    present_profiles(ps, via_ids@.take(k as int))[m],
                ),
        decreases via_ids.len() - k,
    {
        assert(via_ids@.take(k + 1).drop_last() =~= via_ids@.take(k as int));
        match store.find_by_id(via_ids[k]) {
            Some(j) => {
                proof { crate::store::lemma_index_of_id(ps, via_ids@[k as int]); }
                jumps.push(to_view(&profiles[j]));
            },
            None => {},
        }
        k = k + 1;
    }
    assert(via_ids@.take(k as int) =~= via_ids@);
    Ok((base, jumps))
}

/// `a` sorts no later than `b`: character by character by code point, a
/// prefix first.
pub open spec fn text_le(a: Seq<char>, b: Seq<char>) -> bool
    decreases a.len(),
{
    if a.len() == 0 {
        true
    } else if b.len() == 0 {
        false
    } else if (a[0] as u32) != (b[0] as u32) {
        (a[0] as u32) < (b[0] as u32)
    } else {
        text_le(a.drop_first(), b.drop_first())
    }
}

/// Label `a` sorts no later than label `b`: a missing label first.
pub open spec fn label_le(a: Option<String>, b: Option<String>) -> bool {
    match (a, b) {
        (None, _) => true,
        (Some(_), None) => false,
        (Some(x), Some(y)) => text_le(x@, y@),
    }
}

/// The profiles at the positions `order` go by label.
pub open spec fn sorted_by_label(ps: Seq<Model>, order: Seq<usize>) -> bool {
    forall|k: int|
        0 <= k < order.len() - 1 ==> #[trigger] label_le(
            ps[order[k] as int].label,
            ps[order[k + 1] as int].label,
        )
}

/// `order` holds distinct positions below `n`.
pub open spec fn distinct_below(order: Seq<usize>, n: int) -> bool {
    &&& forall|k: int| 0 <= k < order.len() ==> #[trigger] order[k] < n
    &&& forall|k: int, l: int| 0 <= k < l < order.len() ==> order[k] != order[l]
}

proof fn lemma_text_le_total(a: Seq<char>, b: Seq<char>)
    ensures
        text_le(a, b) || text_le(b, a),
    decreases a.len(),
{
    if a.len() > 0 && b.len() > 0 && (a[0] as u32) == (b[0] as u32) {
        lemma_text_le_total(a.drop_first(), b.drop_first());
    }
}

proof fn lemma_label_le_total(a: Option<String>, b: Option<String>)
    ensures
        label_le(a, b) || label_le(b, a),
{
    if a is Some && b is Some {
        lemma_text_le_total(a.unwrap()@, b.unwrap()@);
    }
}

proof fn lemma_insert_sorted(ps: Seq<Model>, before: Seq<usize>, p: int, x: usize)
    requires
        0 <= p <= before.len(),
        sorted_by_label(ps, before),
        p > 0 ==> label_le(ps[before[p - 1] as int].label, ps[x as int].label),
        p < before.len() ==> label_le(ps[x as int].label, ps[before[p] as int].label),
    ensures
        sorted_by_label(ps, before.insert(p, x)),
{
    let after = before.insert(p, x);
    assert forall|k: int|
        0 <= k < after.len() - 1 implies #[trigger] label_le(
            ps[after[k] as int].label,
            ps[after[k + 1] as int].label,
        ) by {
        if k + 1 < p {
            assert(after[k] == before[k] && after[k + 1] == before[k + 1]);
            assert(label_le(ps[before[k] as int].label, ps[before[k + 1] as int].label));
        } else if k + 1 == p {
            assert(after[k] == before[k]);
        } else if k == p {
            assert(after[k + 1] == before[k]);
        } else {
            assert(after[k] == before[k - 1] && after[k + 1] == before[k]);
            let j = k - 1;
            assert(label_le(ps[before[j] as int].label, ps[before[j + 1] as int].label));
        }
    }
}

proof fn lemma_insert_distinct(before: Seq<usize>, p: int, x: usize)
    requires
        0 <= p <= before.len(),
        distinct_below(before, x as int),
    ensures
        distinct_below(before.insert(p, x), x + 1),
{
    let after = before.insert(p, x);
    assert forall|k: int| 0 <= k < after.len() implies #[trigger] after[k] < x + 1 by {
        if k < p {
            assert(after[k] == before[k]);
        } else if k > p {
            assert(after[k] == before[k - 1]);
        }
    }
    assert forall|k: int, l: int| 0 <= k < l < after.len() implies after[k] != after[l] by {
        let kk = if k < p { k } else { k - 1 };
        let ll = if l < p { l } else { l - 1 };
        if k != p && l != p {
            assert(after[k] == before[kk] && after[l] == before[ll]);
        } else if k == p {
            assert(after[l] == before[ll]);
        } else {
            assert(after[k] == before[kk]);
        }
    }
}

fn text_le_exec(a: &str, b: &str) -> (r: bool)
    ensures
        r == text_le(a@, b@),
{
    let la = a.unicode_len();
    let lb = b.unicode_len();
    let mut i: usize = 0;
    assert(a@.skip(0) =~= a@ && b@.skip(0) =~= b@);
    while i < la && i < lb
        invariant
            la == a@.len(),
            lb == b@.len(),
            i <= la,
            i <= lb,
            text_le(a@, b@) == text_le(a@.skip(i as int), b@.skip(i as int)),
        decreases la - i,
    {
        let ca = a.get_char(i) as u32;
        let cb = b.get_char(i) as u32;
        if ca != cb {
            return ca < cb;
        }
        assert(a@.skip(i + 1) =~= a@.skip(i as int).drop_first());
        assert(b@.skip(i + 1) =~= b@.skip(i as int).drop_first());
        i = i + 1;
    }
    i == la
}

fn label_le_exec(a: &Option<String>, b: &Option<String>) -> (r: bool)
    ensures
        r == label_le(*a, *b),
{
    match (a, b) {
        (None, _) => true,
        (Some(_), None) => false,
        (Some(x), Some(y)) => text_le_exec(x.as_str(), y.as_str()),
    }
}

/// Every profile, ordered by label: each stored profile shows exactly
/// once, a missing label first.
pub fn list_profiles(store: &ProfileStore) -> (r: Vec<ProfileView>)
    ensures
        ({
            let ps = store.profile_rows();
            exists|order: Seq<usize>|
                {
                    &&& #[trigger] order.len() == ps.len()
                    &&& r.len() == ps.len()
                    &&& distinct_below(order, ps.len() as int)
                    &&& sorted_by_label(ps, order)
                    &&& forall|k: int| 0 <= k < r.len() ==> is_view_of(#[trigger] r@[k], ps[order[k] as int])
                }
        }),
{
    let profiles = store.profiles();
    let n = profiles.len();
    let mut order: Vec<usize> = Vec::new();
    let mut i: usize = 0;
    while i < n
        invariant
            n == profiles.len(),
            i <= n,
            order.len() == i,
            distinct_below(order@, i as int),
            sorted_by_label(profiles@, order@),
        decreases n - i,
    {
        let mut p: usize = 0;
        while p < order.len() && label_le_exec(&profiles[order[p]].label, &profiles[i].label)
            invariant
                i < n == profiles.len(),
                p <= order.len(),
                distinct_below(order@, i as int),
                p > 0 ==> label_le(profiles@[order@[p - 1] as int].label, profiles@[i as int].label),
            decreases order.len() - p,
        {
            p = p + 1;
        }
        proof {
            if p < order.len() {
                lemma_label_le_total(profiles@[order@[p as int] as int].label, profiles@[i as int].label);
            }
            lemma_insert_sorted(profiles@, order@, p as int, i);
            lemma_insert_distinct(order@, p as int, i);
        }
        order.insert(p, i);
        i = i + 1;
    }
    let mut out: Vec<ProfileView> = Vec::new();
    let mut k: usize = 0;
    while k < n
        invariant
            n == profiles.len() == order.len(),
            k <= n,
            out.len() == k,
            distinct_below(order@, n as int),
            forall|m: int| 0 <= m < k ==> is_view_of(#[trigger] out@[m], profiles@[order@[m] as int]),
        decreases n - k,
    {
        out.push(to_view(&profiles[order[k]]));
        k = k + 1;
    }
    assert(order@.len() == store.profile_rows().len());
    out
}

} // verus!
