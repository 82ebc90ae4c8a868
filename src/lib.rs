//! Named SSH connection profiles, multi-hop jump chains and the argument
//! vector handed to the system ssh client.

pub mod cli;
pub mod entity;
pub mod error;
pub mod infra;
pub mod invocation;
pub mod picker;
pub mod store;
pub mod term;
pub mod text;
pub mod usecase;
