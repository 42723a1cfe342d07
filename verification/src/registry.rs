//! Repositories that name a registry: their dependencies are stored by
//! registry and fetched from the registry's address.

pub mod dependency;
pub mod install;
pub mod repository;
pub mod specification;
