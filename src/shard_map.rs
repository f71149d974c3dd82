//! The sharded concurrent maps behind the registry, and what the library
//! relies on of them.
//!
//! Each map is seen through a name for what it holds: a map from the
//! characters of each key to a plain value. Every operation that the registry
//! performs on a map is one wrapper below, whose contract states over that
//! name what the operation does.
use vstd::prelude::*;

use crate::registry::DevboxInfo;

verus! {

#[verifier::external_type_specification]
#[verifier::external_body]
#[verifier::reject_recursive_types(K)]
#[verifier::reject_recursive_types(V)]
#[verifier::reject_recursive_types(S)]
pub struct ExDashMap<K, V, S>(dashmap::DashMap<K, V, S>);

/// The sharded map of tenant entries: tenant identifier to its workload.
pub type TenantShards = dashmap::DashMap<String, DevboxInfo>;

/// The sharded map of pod addresses: workload key to address.
pub type AddressShards = dashmap::DashMap<String, String>;

/// What a tenant map holds: each identifier's characters to the namespace
/// and the workload name it maps to.
pub uninterp spec fn tenant_entries(m: dashmap::DashMap<String, DevboxInfo>) -> Map<Seq<char>, (Seq<char>, Seq<char>)>;

/// What an address map holds: each key's characters to the address's.
pub uninterp spec fn address_entries(m: dashmap::DashMap<String, String>) -> Map<Seq<char>, Seq<char>>;

// ---------------------------------------------------------------------------
// Tenant map
// ---------------------------------------------------------------------------

/// Relies on dashmap::DashMap::new: a new map holds no entry.
#[verifier::external_body]
pub(crate) fn tenant_map_new() -> (r: TenantShards)
    ensures
        tenant_entries(r).dom().is_empty(),
{
    dashmap::DashMap::new()
}

/// Relies on dashmap::DashMap::contains_key: whether the key has an entry.
#[verifier::external_body]
pub(crate) fn tenant_map_contains_key(m: &TenantShards, key: &str) -> (r: bool)
    ensures
        r == tenant_entries(*m).contains_key(key@),
{
    m.contains_key(key)
}

/// Relies on dashmap::DashMap::insert: the key now maps to the value and
/// every other entry stays.
#[verifier::external_body]
pub(crate) fn tenant_map_insert(m: &mut TenantShards, key: String, value: DevboxInfo)
    ensures
        tenant_entries(*final(m)) == tenant_entries(*old(m)).insert(key@, value@),
{
    m.insert(key, value);
}

/// Relies on dashmap::DashMap::remove: the key's entry leaves, every other
/// entry stays, and the removed entry is handed back if there was one.
#[verifier::external_body]
pub(crate) fn tenant_map_remove(m: &mut TenantShards, key: &str) -> (r: Option<(String, DevboxInfo)>)
    ensures
        tenant_entries(*final(m)) == tenant_entries(*old(m)).remove(key@),
        r.is_some() == tenant_entries(*old(m)).contains_key(key@),
{
    m.remove(key)
}

/// Relies on dashmap::DashMap::clear: no entry is left.
#[verifier::external_body]
pub(crate) fn tenant_map_clear(m: &mut TenantShards)
    ensures
        tenant_entries(*final(m)).dom().is_empty(),
{
    m.clear();
}

/// Relies on dashmap::DashMap::get: a copy of the key's value, if it has one.
#[verifier::external_body]
pub(crate) fn tenant_map_get(m: &TenantShards, key: &str) -> (r: Option<DevboxInfo>)
    ensures
        r.is_some() == tenant_entries(*m).contains_key(key@),
        r.is_some() ==> r.unwrap()@ == tenant_entries(*m)[key@],
{
    m.get(key).map(|entry| entry.value().clone())
}

/// Relies on dashmap::DashMap::len: the number of entries.
#[verifier::external_body]
pub(crate) fn tenant_map_len(m: &TenantShards) -> (r: usize)
    ensures
        r == tenant_entries(*m).len(),
{
    m.len()
}

// ---------------------------------------------------------------------------
// Address map
// ---------------------------------------------------------------------------

/// Relies on dashmap::DashMap::new: a new map holds no entry.
#[verifier::external_body]
pub(crate) fn address_map_new() -> (r: AddressShards)
    ensures
        address_entries(r).dom().is_empty(),
{
    dashmap::DashMap::new()
}

/// Relies on dashmap::DashMap::insert: the key now maps to the value, every
/// other entry stays, and the value that the key held before is returned.
#[verifier::external_body]
pub(crate) fn address_map_insert(m: &mut AddressShards, key: String, value: String) -> (r: Option<String>)
    ensures
        address_entries(*final(m)) == address_entries(*old(m)).insert(key@, value@),
        r.is_some() == address_entries(*old(m)).contains_key(key@),
        r.is_some() ==> r.unwrap()@ == address_entries(*old(m))[key@],
{
    m.insert(key, value)
}

/// Relies on dashmap::DashMap::remove: the key's entry leaves, every other
/// entry stays, and the removed entry is handed back if there was one.
#[verifier::external_body]
pub(crate) fn address_map_remove(m: &mut AddressShards, key: &str) -> (r: Option<(String, String)>)
    ensures
        address_entries(*final(m)) == address_entries(*old(m)).remove(key@),
        r.is_some() == address_entries(*old(m)).contains_key(key@),
{
    m.remove(key)
}

/// Relies on dashmap::DashMap::clear: no entry is left.
#[verifier::external_body]
pub(crate) fn address_map_clear(m: &mut AddressShards)
    ensures
        address_entries(*final(m)).dom().is_empty(),
{
    m.clear();
}

/// Relies on dashmap::DashMap::get: a copy of the key's value, if it has one.
#[verifier::external_body]
pub(crate) fn address_map_get(m: &AddressShards, key: &str) -> (r: Option<String>)
    ensures
        r.is_some() == address_entries(*m).contains_key(key@),
        r.is_some() ==> r.unwrap()@ == address_entries(*m)[key@],
{
    m.get(key).map(|entry| entry.value().clone())
}

/// Relies on dashmap::DashMap::len: the number of entries.
#[verifier::external_body]
pub(crate) fn address_map_len(m: &AddressShards) -> (r: usize)
    ensures
        r == address_entries(*m).len(),
{
    m.len()
}

} // verus!
