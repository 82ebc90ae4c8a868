//! What the use cases take and give: edit requests, profile views and the
//! resolved connect plan.

use vstd::prelude::*;
use crate::entity::profiles::{AuthMode, Model};
use crate::text::hash_id;

pub mod connect;
pub mod password;
pub mod profile;

verus! {

/// A request to create or change a profile; `None` fields are left as
/// they are (or take their defaults on creation).
#[derive(Debug, Clone)]
pub struct EditProfileInput {
    pub label: String,
    pub host: Option<String>,
    pub user: Option<String>,
    pub port: Option<u16>,
    pub mode: Option<String>,
    pub tags: Option<String>,
    pub notes: Option<String>,
    /// Labels of the new jump chain; a non-empty list replaces the chain.
    pub jumps: Vec<String>,
}

/// A profile as shown to a user.
#[derive(Debug, Clone)]
pub struct ProfileView {
    pub id: u32,
    pub label: String,
    pub host: String,
    pub user: String,
    pub port: u16,
    pub mode: String,
    pub tags: Option<String>,
    pub note: Option<String>,
}

/// Which profile to connect to: `id`, when given, wins over `target`.
#[derive(Debug, Clone)]
pub struct ConnectInput {
    /// The label of the profile.
    pub target: String,
    /// The numeric id of the profile.
    pub id: Option<u32>,
}

/// One endpoint of a resolved chain.
#[derive(Debug, Clone)]
pub struct ConnectHop {
    pub id: u32,
    pub label: String,
    pub host: String,
    pub user: String,
    pub port: u16,
    pub auth_mode: AuthMode,
    pub key_path_local: Option<String>,
}

/// The hops of a connection, from the first bastion to the destination.
#[derive(Debug, Clone)]
pub struct ConnectPlan {
    pub hops: Vec<ConnectHop>,
}

/// A stored port, 22 when none is stored.
pub open spec fn port_or_default(port: Option<u16>) -> u16 {
    match port {
        Some(p) => p,
        None => 22,
    }
}

/// The name a hop goes by: its label, or `#<id>` when it has none.
pub open spec fn hop_label(p: Model) -> Seq<char> {
    match p.label {
        Some(l) => l@,
        None => hash_id(p.id as nat),
    }
}

/// `h` is the hop that profile `p` with key path `key` becomes.
pub open spec fn is_hop_of(h: ConnectHop, p: Model, key: Option<String>) -> bool {
    &&& h.id == p.id
    &&& h.label@ == hop_label(p)
    &&& h.host == p.hostname
    &&& h.user == p.username
    &&& h.port == port_or_default(p.port)
    &&& h.auth_mode == p.auth_mode
    &&& h.key_path_local == key
}

/// `v` shows profile `p`: a missing label shows as empty text.
pub open spec fn is_view_of(v: ProfileView, p: Model) -> bool {
    &&& v.id == p.id
    &&& v.label@ == (match p.label {
        Some(l) => l@,
        None => Seq::<char>::empty(),
    })
    &&& v.host == p.hostname
    &&& v.user == p.username
    &&& v.port == port_or_default(p.port)
    &&& v.mode@ == p.auth_mode.name()
    &&& v.tags == p.tags
    &&& v.note == p.note
}

} // verus!
