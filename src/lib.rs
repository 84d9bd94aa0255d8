//! Host-scoped short-link redirection: the record format, the key space,
//! the resolution engine and the management decisions around an opaque
//! key-value store.

pub mod text;
pub mod keyspace;
pub mod codec;
pub mod auth;
pub mod apex;
pub mod resolver;
pub mod manager;
