//! Cover art: where it comes from, how it is cached, and which provider
//! is asked for it.
pub mod art;
pub mod cache;
pub mod cache_ops;
pub mod manager;
pub mod providers;
pub mod provider;
pub mod lookup;
