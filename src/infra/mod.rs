//! Where stored passwords live.

pub mod password_store;
