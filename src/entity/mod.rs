//! The stored records: profiles, route edges and local key paths.

pub mod local_auth;
pub mod profiles;
pub mod routes;
