//! Routing core of a dynamic reverse proxy: a dual-indexed registry of
//! tenants and pod addresses, the virtual-host grammar, backend resolution,
//! the per-request routing decision, and the reconciliation of watch events.

pub mod crd;
pub mod host;
pub mod partial;
pub mod proxy;
pub mod registry;
pub mod shard_map;
pub mod watcher;
